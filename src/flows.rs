use vstd::prelude::*;
use crate::error::ProxyError;
use crate::hashing::{compute_erc191_hash, digest_of};
use crate::intents::{all_of_kind, validate_batch, DefuseIntents, IntentKind};
use crate::keys::{key_text, public_key_to_string, KeyView, PublicKey};
use crate::registry::{IntentsProxyMpcContract, PortfolioId};
use crate::signing::SignRequest;

verus! {

/// The owner-signed payload that delegates a portfolio to an agent key.
#[derive(Clone, Debug)]
pub struct EphemeralAssignPayload {
    pub owner_pubkey: PublicKey,
    pub nonce: u64,
    pub portfolio_id: PortfolioId,
}

/// The owner-signed payload of a withdrawal.
#[derive(Clone, Debug)]
pub struct WithdrawEphemeral {
    /// The portfolio owner's key.
    pub owner_pubkey: PublicKey,
    /// Must be greater than the stored nonce.
    pub nonce: u64,
    /// The intents to sign; fungible withdrawals only.
    pub defuse_intents: DefuseIntents,
    /// The portfolio the withdrawal draws on.
    pub portfolio_id: PortfolioId,
}

/// A request is bound to `owner` and signs `digest` with key version 0.
pub open spec fn request_for(r: SignRequest, digest: Seq<u8>, owner: KeyView) -> bool {
    &&& r.payload@ == digest
    &&& r.path@ == key_text(owner)
    &&& r.key_version == 0
}

/// A signing request for a digest, with the owner's key as derivation path.
fn sign_request(digest: [u8; 32], owner: &PublicKey) -> (r: SignRequest)
    ensures
        request_for(r, digest@, owner@),
{
    SignRequest { payload: digest, path: public_key_to_string(owner), key_version: 0 }
}

impl IntentsProxyMpcContract {
    /// The outcome of delegating portfolio `portfolio_id` to an agent key under
    /// a signed payload whose canonical bytes are `signed`.
    pub open spec fn assign_outcome(
        &self,
        payload: EphemeralAssignPayload,
        signed: Seq<u8>,
        signature: Seq<u8>,
        portfolio_id: PortfolioId,
    ) -> Result<(), ProxyError> {
        if payload.portfolio_id != portfolio_id {
            Err(ProxyError::PortfolioMismatch)
        } else {
            self.authorization_outcome(
                payload.owner_pubkey@,
                payload.nonce,
                digest_of(signed),
                signature,
                portfolio_id,
            )
        }
    }

    /// `next` is this state with `owner`'s stored nonce set to `nonce`, all else kept.
    pub open spec fn nonce_committed(&self, next: Self, owner: KeyView, nonce: u64) -> bool {
        &&& next.owners() == self.owners().insert(owner, (nonce, self.owners()[owner].1))
        &&& next.agents() == self.agents()
        &&& next.portfolios() == self.portfolios()
        &&& next.counter() == self.counter()
        &&& next.signer_account() == self.signer_account()
    }

    /// `next` is this state after the delegation of `payload`: the owner's
    /// nonce is the payload's, and `agent` is bound to `portfolio_id`.
    pub open spec fn assigned(
        &self,
        next: Self,
        payload: EphemeralAssignPayload,
        agent: KeyView,
        portfolio_id: PortfolioId,
    ) -> bool {
        &&& next.owners() == self.owners().insert(
            payload.owner_pubkey@,
            (payload.nonce, self.owners()[payload.owner_pubkey@].1),
        )
        &&& next.agents() == self.agents().insert(agent, portfolio_id)
        &&& next.portfolios() == self.portfolios()
        &&& next.counter() == self.counter()
        &&& next.signer_account() == self.signer_account()
    }

    /// Delegates a portfolio to `agent_pubkey`. `signed_payload` holds the
    /// canonical bytes of `payload`, which the owner signed. On success the
    /// owner's nonce becomes the payload's and the agent key is bound to the
    /// portfolio, replacing any earlier binding; on failure nothing changes.
    pub fn assign_portfolio_agent(
        &mut self,
        signed_payload: &Vec<u8>,
        payload: &EphemeralAssignPayload,
        signature: &Vec<u8>,
        agent_pubkey: PublicKey,
        portfolio_id: PortfolioId,
    ) -> (r: Result<(), ProxyError>)
        requires
            old(self).wf(),
        ensures
            final(self).wf(),
            r == old(self).assign_outcome(*payload, signed_payload@, signature@, portfolio_id),
            r is Err ==> *final(self) == *old(self),
            r is Ok ==> old(self).assigned(*final(self), *payload, agent_pubkey@, portfolio_id),
    {
        if payload.portfolio_id != portfolio_id {
            return Err(ProxyError::PortfolioMismatch);
        }
        let digest = compute_erc191_hash(signed_payload);
        let owner = &payload.owner_pubkey;
        match self.authorize(owner, payload.nonce, &digest, signature, portfolio_id) {
            Err(e) => return Err(e),
            Ok(()) => {},
        }
        self.commit_nonce(owner, payload.nonce);
        self.bind_agent(agent_pubkey, portfolio_id);
        Ok(())
    }

    /// The outcome of a rebalance by `agent` on portfolio `portfolio_id`.
    pub open spec fn balance_outcome(
        &self,
        agent: KeyView,
        portfolio_id: PortfolioId,
        intents: DefuseIntents,
    ) -> Result<(), ProxyError> {
        if !all_of_kind(intents.intents@, IntentKind::TokenDiff) {
            Err(ProxyError::IntentTypeNotAllowed)
        } else if !self.agents().contains_key(agent) {
            Err(ProxyError::AgentNotFound)
        } else if self.agents()[agent] != portfolio_id {
            Err(ProxyError::AgentNotAssigned)
        } else {
            Ok(())
        }
    }

    /// Rebalances a portfolio: the batch must hold token diffs only, and the
    /// caller must be the agent key bound to the portfolio; checked in that order. `intents_json` holds the canonical
    /// bytes of the batch. Gives one signing request for the batch's digest,
    /// derived from the portfolio owner's key.
    pub fn balance_portfolio(
        &self,
        agent: &PublicKey,
        portfolio_id: PortfolioId,
        defuse_intents: &DefuseIntents,
        intents_json: &Vec<u8>,
    ) -> (r: Result<Vec<SignRequest>, ProxyError>)
        requires
            self.wf(),
        ensures
            r is Ok <==> self.balance_outcome(agent@, portfolio_id, *defuse_intents) is Ok,
            r matches Err(e) ==> self.balance_outcome(agent@, portfolio_id, *defuse_intents)
                == Err::<(), ProxyError>(e),
            r matches Ok(reqs) ==> reqs@.len() == 1 && self.portfolio_exists(portfolio_id)
                && request_for(reqs@[0], digest_of(intents_json@), self.portfolio_owner(portfolio_id)),
    {
        match validate_batch(&defuse_intents.intents, IntentKind::TokenDiff) {
            Err(e) => return Err(e),
            Ok(()) => {},
        }
        match self.agent_portfolio(agent) {
            None => return Err(ProxyError::AgentNotFound),
            Some(info) => {
                if info.portfolio_id != portfolio_id {
                    return Err(ProxyError::AgentNotAssigned);
                }
            },
        }
        proof {
            self.lemma_consistent();
        }
        let digest = compute_erc191_hash(intents_json);
        let owner = self.owner_of(portfolio_id);
        let mut reqs: Vec<SignRequest> = Vec::new();
        reqs.push(sign_request(digest, owner));
        Ok(reqs)
    }

    /// The outcome of a withdrawal under a signed payload whose canonical bytes
    /// are `signed`, with `n_payloads` per-intent payloads.
    pub open spec fn withdraw_outcome(
        &self,
        payload: WithdrawEphemeral,
        signed: Seq<u8>,
        signature: Seq<u8>,
        n_payloads: nat,
    ) -> Result<(), ProxyError> {
        if !all_of_kind(payload.defuse_intents.intents@, IntentKind::FtWithdraw) {
            Err(ProxyError::IntentTypeNotAllowed)
        } else if n_payloads != payload.defuse_intents.intents@.len() {
            Err(ProxyError::PayloadCountMismatch)
        } else {
            self.authorization_outcome(
                payload.owner_pubkey@,
                payload.nonce,
                digest_of(signed),
                signature,
                payload.portfolio_id,
            )
        }
    }

    /// Withdraws funds under an owner-signed payload; `ephemeral_json` holds its
    /// canonical bytes, and `intent_payloads[i]` those of its `i`-th intent. The
    /// batch must hold fungible withdrawals only. On success the owner's nonce
    /// becomes the payload's, and one signing request per intent is given, for
    /// that intent's digest, derived from the owner's key. On failure nothing
    /// changes.
    pub fn withdraw_funds(
        &mut self,
        ephemeral_json: &Vec<u8>,
        ephemeral: &WithdrawEphemeral,
        signature: &Vec<u8>,
        intent_payloads: &Vec<Vec<u8>>,
    ) -> (r: Result<Vec<SignRequest>, ProxyError>)
        requires
            old(self).wf(),
        ensures
            final(self).wf(),
            r is Ok <==> old(self).withdraw_outcome(
                *ephemeral,
                ephemeral_json@,
                signature@,
                intent_payloads@.len(),
            ) is Ok,
            r matches Err(e) ==> old(self).withdraw_outcome(
                *ephemeral,
                ephemeral_json@,
                signature@,
                intent_payloads@.len(),
            ) == Err::<(), ProxyError>(e),
            r is Err ==> *final(self) == *old(self),
            r matches Ok(reqs) ==> {
                &&& reqs@.len() == intent_payloads@.len()
                &&& forall|i: int|
                    0 <= i < reqs@.len() ==> request_for(
                        #[trigger] reqs@[i],
                        digest_of(intent_payloads@[i]@),
                        ephemeral.owner_pubkey@,
                    )
                &&& old(self).nonce_committed(*final(self), ephemeral.owner_pubkey@, ephemeral.nonce)
            },
    {
        match validate_batch(&ephemeral.defuse_intents.intents, IntentKind::FtWithdraw) {
            Err(e) => return Err(e),
            Ok(()) => {},
        }
        if intent_payloads.len() != ephemeral.defuse_intents.intents.len() {
            return Err(ProxyError::PayloadCountMismatch);
        }
        let digest = compute_erc191_hash(ephemeral_json);
        let owner = &ephemeral.owner_pubkey;
        match self.authorize(owner, ephemeral.nonce, &digest, signature, ephemeral.portfolio_id) {
            Err(e) => return Err(e),
            Ok(()) => {},
        }
        self.commit_nonce(owner, ephemeral.nonce);
        let mut reqs: Vec<SignRequest> = Vec::new();
        let mut i: usize = 0;
        while i < intent_payloads.len()
            invariant
                i <= intent_payloads@.len(),
                reqs@.len() == i,
                forall|j: int|
                    0 <= j < i ==> request_for(
                        #[trigger] reqs@[j],
                        digest_of(intent_payloads@[j]@),
                        owner@,
                    ),
            decreases intent_payloads@.len() - i,
        {
            let d = compute_erc191_hash(&intent_payloads[i]);
            reqs.push(sign_request(d, owner));
            i = i + 1;
        }
        Ok(reqs)
    }
    /// A signing request for one intent of portfolio `portfolio_id`, whose
    /// canonical bytes are `request_json`: its digest, derived from the
    /// portfolio owner's key. Fails only where the portfolio does not exist.
    pub fn request_intent_signature(
        &self,
        request_json: &Vec<u8>,
        portfolio_id: PortfolioId,
    ) -> (r: Result<SignRequest, ProxyError>)
        requires
            self.wf(),
        ensures
            !self.portfolio_exists(portfolio_id) ==> r == Err::<SignRequest, ProxyError>(
                ProxyError::PortfolioNotFound,
            ),
            self.portfolio_exists(portfolio_id) ==> (r matches Ok(req) && request_for(
                req,
                digest_of(request_json@),
                self.portfolio_owner(portfolio_id),
            )),
    {
        let owner = match self.get_portfolio(portfolio_id) {
            Some(p) => p.owner_key,
            None => return Err(ProxyError::PortfolioNotFound),
        };
        let digest = compute_erc191_hash(request_json);
        Ok(sign_request(digest, &owner))
    }
}

} // verus!
