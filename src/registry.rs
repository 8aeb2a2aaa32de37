use vstd::prelude::*;
use crate::error::ProxyError;
use crate::keys::{KeyView, PublicKey};
use crate::signature::{signature_valid, verify_signature};

verus! {

/// Portfolio ids are assigned from one counter, starting at 1.
pub type PortfolioId = u32;

/// The regions of persistent state.
#[derive(Clone, Copy, Debug, PartialEq, Eq, Structural)]
pub enum StorageKey {
    OwnerMap,
    AgentKeys,
    PortfolioInfo,
}

/// An owner's record: the last nonce used and the portfolios owned, in creation order.
#[derive(Clone, Debug)]
pub struct UserInfo {
    pub nonce: u64,
    pub portfolios: Vec<PortfolioId>,
}

/// An agent key's binding to a portfolio.
#[derive(Clone, Copy, Debug, PartialEq, Eq, Structural)]
pub struct KeyInfo {
    pub portfolio_id: PortfolioId,
}

/// A portfolio and the key that owns it.
#[derive(Clone, Debug)]
pub struct PortfolioInfo {
    pub owner_key: PublicKey,
}

/// An owner record as a value: (nonce, owned portfolio ids).
pub type OwnerView = (u64, Seq<PortfolioId>);

/// Some key in the sequence has this value.
pub open spec fn has_key(keys: Seq<PublicKey>, k: KeyView) -> bool {
    exists|i: int| 0 <= i < keys.len() && (#[trigger] keys[i])@ == k
}

/// The position of a key with this value.
pub open spec fn key_index(keys: Seq<PublicKey>, k: KeyView) -> int {
    choose|i: int| 0 <= i < keys.len() && (#[trigger] keys[i])@ == k
}

/// No two keys in the sequence have the same value.
pub open spec fn distinct_keys(keys: Seq<PublicKey>) -> bool {
    forall|i: int, j: int|
        0 <= i < keys.len() && 0 <= j < keys.len() && i != j ==> (#[trigger] keys[i])@ != (
        #[trigger] keys[j])@
}

proof fn lemma_key_index(keys: Seq<PublicKey>, i: int)
    requires
        distinct_keys(keys),
        0 <= i < keys.len(),
    ensures
        has_key(keys, keys[i]@),
        key_index(keys, keys[i]@) == i,
{
    assert(has_key(keys, keys[i]@));
}

/// Finds the position of a key.
fn find_key(keys: &Vec<PublicKey>, k: &PublicKey) -> (r: Option<usize>)
    ensures
        r matches Some(i) ==> i < keys@.len() && keys@[i as int]@ == k@,
        r is None ==> !has_key(keys@, k@),
{
    let mut i: usize = 0;
    while i < keys.len()
        invariant
            i <= keys@.len(),
            forall|j: int| 0 <= j < i ==> (#[trigger] keys@[j])@ != k@,
        decreases keys@.len() - i,
    {
        if keys[i].same_as(k) {
            return Some(i);
        }
        i = i + 1;
    }
    None
}

fn copy_ids(v: &Vec<PortfolioId>) -> (r: Vec<PortfolioId>)
    ensures
        r@ == v@,
{
    let mut out: Vec<PortfolioId> = Vec::new();
    let mut i: usize = 0;
    while i < v.len()
        invariant
            i <= v@.len(),
            out@ == v@.subrange(0, i as int),
        decreases v@.len() - i,
    {
        out.push(v[i]);
        assert(v@.subrange(0, i + 1) =~= v@.subrange(0, i as int).push(v@[i as int]));
        i = i + 1;
    }
    assert(v@.subrange(0, i as int) =~= v@);
    out
}

/// The persistent state: owner records, agent bindings, portfolios and the
/// portfolio counter. Portfolio `id` is stored at position `id - 1`.
pub struct IntentsProxyMpcContract {
    owner_keys: Vec<PublicKey>,
    owner_nonces: Vec<u64>,
    owner_portfolios: Vec<Vec<PortfolioId>>,
    agent_keys: Vec<PublicKey>,
    agent_portfolios: Vec<PortfolioId>,
    portfolio_owners: Vec<PublicKey>,
    global_portfolio_counter: u32,
    mpc_contract_id: String,
}

impl IntentsProxyMpcContract {
    /// Owner records by owner key.
    pub closed spec fn owners(&self) -> Map<KeyView, OwnerView> {
        Map::new(
            |k: KeyView| has_key(self.owner_keys@, k),
            |k: KeyView|
                (
                    self.owner_nonces@[key_index(self.owner_keys@, k)],
                    self.owner_portfolios@[key_index(self.owner_keys@, k)]@,
                ),
        )
    }

    /// Agent bindings: agent key to portfolio id.
    pub closed spec fn agents(&self) -> Map<KeyView, PortfolioId> {
        Map::new(
            |k: KeyView| has_key(self.agent_keys@, k),
            |k: KeyView| self.agent_portfolios@[key_index(self.agent_keys@, k)],
        )
    }

    /// Owner keys of the portfolios, portfolio `id` at position `id - 1`.
    pub closed spec fn portfolios(&self) -> Seq<KeyView> {
        self.portfolio_owners@.map_values(|k: PublicKey| k@)
    }

    /// The last portfolio id given out.
    pub closed spec fn counter(&self) -> u32 {
        self.global_portfolio_counter
    }

    /// The account of the threshold-signing service.
    pub closed spec fn signer_account(&self) -> Seq<char> {
        self.mpc_contract_id@
    }

    /// A portfolio with this id exists.
    pub open spec fn portfolio_exists(&self, id: PortfolioId) -> bool {
        1 <= id <= self.counter()
    }

    /// The owner key of an existing portfolio.
    pub open spec fn portfolio_owner(&self, id: PortfolioId) -> KeyView {
        self.portfolios()[id - 1]
    }

    /// The state's invariant.
    pub closed spec fn wf(&self) -> bool {
        &&& self.owner_nonces@.len() == self.owner_keys@.len()
        &&& self.owner_portfolios@.len() == self.owner_keys@.len()
        &&& self.agent_portfolios@.len() == self.agent_keys@.len()
        &&& self.portfolio_owners@.len() == self.global_portfolio_counter
        &&& distinct_keys(self.owner_keys@)
        &&& distinct_keys(self.agent_keys@)
        &&& forall|i: int|
            0 <= i < self.agent_portfolios@.len() ==> 1 <= #[trigger] self.agent_portfolios@[i]
                <= self.global_portfolio_counter
        &&& forall|p: int|
            0 <= p < self.portfolio_owners@.len() ==> has_key(
                self.owner_keys@,
                (#[trigger] self.portfolio_owners@[p])@,
            )
        &&& forall|i: int, j: int|
            0 <= i < self.owner_portfolios@.len() && 0 <= j < self.owner_portfolios@[i]@.len()
                ==> {
                let id = #[trigger] self.owner_portfolios@[i]@[j];
                &&& 1 <= id <= self.global_portfolio_counter
                &&& self.portfolio_owners@[id - 1]@ == self.owner_keys@[i]@
            }
    }

    /// An empty state that sends signing requests to `mpc_contract_id`.
    pub fn new(mpc_contract_id: String) -> (r: Self)
        ensures
            r.wf(),
            r.owners() == Map::<KeyView, OwnerView>::empty(),
            r.agents() == Map::<KeyView, PortfolioId>::empty(),
            r.portfolios() == Seq::<KeyView>::empty(),
            r.counter() == 0,
            r.signer_account() == mpc_contract_id@,
    {
        let r = IntentsProxyMpcContract {
            owner_keys: Vec::new(),
            owner_nonces: Vec::new(),
            owner_portfolios: Vec::new(),
            agent_keys: Vec::new(),
            agent_portfolios: Vec::new(),
            portfolio_owners: Vec::new(),
            global_portfolio_counter: 0,
            mpc_contract_id,
        };
        assert(r.owners() =~= Map::<KeyView, OwnerView>::empty());
        assert(r.agents() =~= Map::<KeyView, PortfolioId>::empty());
        assert(r.portfolios() =~= Seq::<KeyView>::empty());
        r
    }

    /// The account of the threshold-signing service.
    pub fn mpc_contract_id(&self) -> (r: &String)
        ensures
            r@ == self.signer_account(),
    {
        &self.mpc_contract_id
    }

    /// `next` is this state after portfolio `id` was created for `owner`: the
    /// counter moved on to `id`, the portfolio was appended, and the owner's
    /// record (created with nonce 0 where there was none) lists `id` last.
    pub open spec fn created(&self, next: Self, owner: KeyView, id: PortfolioId) -> bool {
        let rec = if self.owners().contains_key(owner) {
            (self.owners()[owner].0, self.owners()[owner].1.push(id))
        } else {
            (0u64, seq![id])
        };
        &&& self.counter() < u32::MAX
        &&& id == self.counter() + 1
        &&& next.counter() == id
        &&& next.portfolios() == self.portfolios().push(owner)
        &&& next.owners() == self.owners().insert(owner, rec)
        &&& next.agents() == self.agents()
        &&& next.signer_account() == self.signer_account()
    }

    /// Registers a new portfolio owned by `owner_key` under the next id, creating
    /// the owner's record (nonce 0) when it has none, and appending the id to it.
    pub fn create_portfolio(&mut self, owner_key: PublicKey) -> (r: Result<PortfolioId, ProxyError>)
        requires
            old(self).wf(),
        ensures
            final(self).wf(),
            old(self).counter() == u32::MAX ==> r == Err::<PortfolioId, ProxyError>(
                ProxyError::CounterOverflow,
            ) && *final(self) == *old(self),
            old(self).counter() < u32::MAX ==> r == Ok::<PortfolioId, ProxyError>(
                (old(self).counter() + 1) as PortfolioId,
            ) && old(self).created(*final(self), owner_key@, (old(self).counter() + 1) as PortfolioId),
    {
        if self.global_portfolio_counter == u32::MAX {
            return Err(ProxyError::CounterOverflow);
        }
        let id: PortfolioId = self.global_portfolio_counter + 1;
        let ghost old_self = *self;
        let found = find_key(&self.owner_keys, &owner_key);
        let key_copy = owner_key.copy();
        self.portfolio_owners.push(key_copy);
        self.global_portfolio_counter = id;
        match found {
            Some(i) => {
                let mut ids = copy_ids(&self.owner_portfolios[i]);
                ids.push(id);
                self.owner_portfolios.set(i, ids);
                proof {
                    lemma_key_index(self.owner_keys@, i as int);
                    assert(self.portfolios() =~= old_self.portfolios().push(owner_key@));
                    assert forall|a: int, b: int|
                        0 <= a < self.owner_portfolios@.len() && 0 <= b
                            < self.owner_portfolios@[a]@.len() implies {
                        let pid = #[trigger] self.owner_portfolios@[a]@[b];
                        &&& 1 <= pid <= self.global_portfolio_counter
                        &&& self.portfolio_owners@[pid - 1]@ == self.owner_keys@[a]@
                    } by {
                        if a != i || b < old_self.owner_portfolios@[a]@.len() {
                            let pid = old_self.owner_portfolios@[a]@[b];
                            assert(1 <= pid <= old_self.global_portfolio_counter);
                        }
                    }
                    assert forall|p: int|
                        0 <= p < self.portfolio_owners@.len() implies has_key(
                        self.owner_keys@,
                        (#[trigger] self.portfolio_owners@[p])@,
                    ) by {
                        if p == self.portfolio_owners@.len() - 1 {
                            assert(self.owner_keys@[i as int]@ == owner_key@);
                        } else {
                            assert(self.portfolio_owners@[p] == old_self.portfolio_owners@[p]);
                        }
                    }
                    assert(self.owners() =~= old_self.owners().insert(
                        owner_key@,
                        (old_self.owners()[owner_key@].0, old_self.owners()[owner_key@].1.push(id)),
                    ));
                    assert(self.agents() =~= old_self.agents());
                }
            },
            None => {
                self.owner_keys.push(owner_key);
                self.owner_nonces.push(0);
                self.owner_portfolios.push(vec![id]);
                proof {
                    let n = old_self.owner_keys@.len() as int;
                    assert forall|a: int, b: int|
                        0 <= a < self.owner_keys@.len() && 0 <= b < self.owner_keys@.len() && a
                            != b implies (#[trigger] self.owner_keys@[a])@ != (
                    #[trigger] self.owner_keys@[b])@ by {
                        if a == n {
                            assert(old_self.owner_keys@[b] == self.owner_keys@[b]);
                        } else if b == n {
                            assert(old_self.owner_keys@[a] == self.owner_keys@[a]);
                        }
                    }
                    lemma_key_index(self.owner_keys@, n);
                    assert(self.portfolios() =~= old_self.portfolios().push(owner_key@));
                    assert forall|a: int, b: int|
                        0 <= a < self.owner_portfolios@.len() && 0 <= b
                            < self.owner_portfolios@[a]@.len() implies {
                        let pid = #[trigger] self.owner_portfolios@[a]@[b];
                        &&& 1 <= pid <= self.global_portfolio_counter
                        &&& self.portfolio_owners@[pid - 1]@ == self.owner_keys@[a]@
                    } by {
                        if a != n {
                            let pid = old_self.owner_portfolios@[a]@[b];
                            assert(1 <= pid <= old_self.global_portfolio_counter);
                            assert(self.owner_keys@[a] == old_self.owner_keys@[a]);
                        }
                    }
                    assert forall|p: int|
                        0 <= p < self.portfolio_owners@.len() implies has_key(
                        self.owner_keys@,
                        (#[trigger] self.portfolio_owners@[p])@,
                    ) by {
                        if p == self.portfolio_owners@.len() - 1 {
                            assert(self.owner_keys@[n]@ == owner_key@);
                        } else {
                            let q = self.portfolio_owners@[p];
                            assert(q == old_self.portfolio_owners@[p]);
                            assert(has_key(old_self.owner_keys@, q@));
                            let w = choose|w: int| 0 <= w < old_self.owner_keys@.len() && (#[trigger] old_self.owner_keys@[w])@ == q@;
                            assert(self.owner_keys@[w] == old_self.owner_keys@[w]);
                        }
                    }
                    assert forall|k: KeyView| #[trigger] self.owners().contains_key(k) == old_self.owners().insert(owner_key@, (0u64, seq![id])).contains_key(k) by {
                        if k != owner_key@ && has_key(old_self.owner_keys@, k) {
                            let w = choose|w: int| 0 <= w < old_self.owner_keys@.len() && (#[trigger] old_self.owner_keys@[w])@ == k;
                            assert(self.owner_keys@[w] == old_self.owner_keys@[w]);
                        }
                        if k != owner_key@ && has_key(self.owner_keys@, k) {
                            let w = choose|w: int| 0 <= w < self.owner_keys@.len() && (#[trigger] self.owner_keys@[w])@ == k;
                            assert(w != n);
                            assert(self.owner_keys@[w] == old_self.owner_keys@[w]);
                        }
                    }
                    assert forall|k: KeyView| #[trigger] self.owners().contains_key(k) && k != owner_key@ implies self.owners()[k] == old_self.owners()[k] by {
                        let w = key_index(self.owner_keys@, k);
                        assert(w != n);
                        assert(self.owner_keys@[w] == old_self.owner_keys@[w]);
                        lemma_key_index(old_self.owner_keys@, w);
                    }
                    assert(self.owner_portfolios@[n]@ =~= seq![id]);
                    assert(self.owners()[owner_key@] == (0u64, seq![id]));
                    assert(self.owners() =~= old_self.owners().insert(owner_key@, (0u64, seq![id])));
                    assert(self.agents() =~= old_self.agents());
                }
            },
        }
        Ok(id)
    }

    /// The outcome of authorizing `owner` with `nonce` and a signature over
    /// `digest` for portfolio `id`: the owner must have a record, the nonce must
    /// be greater than the stored one, the signature must verify, and the
    /// portfolio must exist and be owned by `owner`; checked in that order.
    pub open spec fn authorization_outcome(
        &self,
        owner: KeyView,
        nonce: u64,
        digest: Seq<u8>,
        signature: Seq<u8>,
        id: PortfolioId,
    ) -> Result<(), ProxyError> {
        if !self.owners().contains_key(owner) {
            Err(ProxyError::OwnerNotFound)
        } else if nonce <= self.owners()[owner].0 {
            Err(ProxyError::StaleNonce)
        } else if !signature_valid(owner, digest, signature) {
            Err(ProxyError::InvalidSignature)
        } else if !self.portfolio_exists(id) {
            Err(ProxyError::PortfolioNotFound)
        } else if self.portfolio_owner(id) != owner {
            Err(ProxyError::OwnershipMismatch)
        } else {
            Ok(())
        }
    }

    /// Checks the authorization of `owner` for portfolio `id`, changing nothing.
    pub fn authorize(
        &self,
        owner: &PublicKey,
        nonce: u64,
        digest: &[u8; 32],
        signature: &Vec<u8>,
        id: PortfolioId,
    ) -> (r: Result<(), ProxyError>)
        requires
            self.wf(),
        ensures
            r == self.authorization_outcome(owner@, nonce, digest@, signature@, id),
    {
        let i = match find_key(&self.owner_keys, owner) {
            Some(i) => i,
            None => return Err(ProxyError::OwnerNotFound),
        };
        proof {
            lemma_key_index(self.owner_keys@, i as int);
        }
        if nonce <= self.owner_nonces[i] {
            return Err(ProxyError::StaleNonce);
        }
        if !verify_signature(owner, digest, signature) {
            return Err(ProxyError::InvalidSignature);
        }
        if id == 0 || id > self.global_portfolio_counter {
            return Err(ProxyError::PortfolioNotFound);
        }
        if !self.portfolio_owners[(id - 1) as usize].same_as(owner) {
            return Err(ProxyError::OwnershipMismatch);
        }
        Ok(())
    }

    /// Stores `nonce` as the owner's last nonce.
    pub(crate) fn commit_nonce(&mut self, owner: &PublicKey, nonce: u64)
        requires
            old(self).wf(),
            old(self).owners().contains_key(owner@),
        ensures
            final(self).wf(),
            final(self).owners() == old(self).owners().insert(
                owner@,
                (nonce, old(self).owners()[owner@].1),
            ),
            final(self).agents() == old(self).agents(),
            final(self).portfolios() == old(self).portfolios(),
            final(self).counter() == old(self).counter(),
            final(self).signer_account() == old(self).signer_account(),
    {
        let ghost old_self = *self;
        let i = find_key(&self.owner_keys, owner).unwrap();
        self.owner_nonces.set(i, nonce);
        proof {
            lemma_key_index(self.owner_keys@, i as int);
            assert(self.owners() =~= old_self.owners().insert(
                owner@,
                (nonce, old_self.owners()[owner@].1),
            ));
            assert(self.agents() =~= old_self.agents());
        }
    }

    /// Binds `agent` to portfolio `id`, replacing any earlier binding of that key.
    pub(crate) fn bind_agent(&mut self, agent: PublicKey, id: PortfolioId)
        requires
            old(self).wf(),
            old(self).portfolio_exists(id),
        ensures
            final(self).wf(),
            final(self).agents() == old(self).agents().insert(agent@, id),
            final(self).owners() == old(self).owners(),
            final(self).portfolios() == old(self).portfolios(),
            final(self).counter() == old(self).counter(),
            final(self).signer_account() == old(self).signer_account(),
    {
        let ghost old_self = *self;
        match find_key(&self.agent_keys, &agent) {
            Some(i) => {
                self.agent_portfolios.set(i, id);
                proof {
                    lemma_key_index(self.agent_keys@, i as int);
                    assert(self.agents() =~= old_self.agents().insert(agent@, id));
                }
            },
            None => {
                self.agent_keys.push(agent);
                self.agent_portfolios.push(id);
                proof {
                    let n = old_self.agent_keys@.len() as int;
                    assert forall|a: int, b: int|
                        0 <= a < self.agent_keys@.len() && 0 <= b < self.agent_keys@.len() && a
                            != b implies (#[trigger] self.agent_keys@[a])@ != (
                    #[trigger] self.agent_keys@[b])@ by {
                        if a == n {
                            assert(old_self.agent_keys@[b] == self.agent_keys@[b]);
                        } else if b == n {
                            assert(old_self.agent_keys@[a] == self.agent_keys@[a]);
                        }
                    }
                    lemma_key_index(self.agent_keys@, n);
                    assert forall|k: KeyView| #[trigger] self.agents().contains_key(k) == old_self.agents().insert(agent@, id).contains_key(k) by {
                        if k != agent@ && has_key(old_self.agent_keys@, k) {
                            let w = choose|w: int| 0 <= w < old_self.agent_keys@.len() && (#[trigger] old_self.agent_keys@[w])@ == k;
                            assert(self.agent_keys@[w] == old_self.agent_keys@[w]);
                        }
                        if k != agent@ && has_key(self.agent_keys@, k) {
                            let w = choose|w: int| 0 <= w < self.agent_keys@.len() && (#[trigger] self.agent_keys@[w])@ == k;
                            assert(w != n);
                            assert(self.agent_keys@[w] == old_self.agent_keys@[w]);
                        }
                    }
                    assert forall|k: KeyView| #[trigger] self.agents().contains_key(k) && k != agent@ implies self.agents()[k] == old_self.agents()[k] by {
                        let w = key_index(self.agent_keys@, k);
                        assert(w != n);
                        assert(self.agent_keys@[w] == old_self.agent_keys@[w]);
                        lemma_key_index(old_self.agent_keys@, w);
                    }
                    assert(self.agents() =~= old_self.agents().insert(agent@, id));
                }
            },
        }
    }

    /// The portfolio an agent key is bound to, if any.
    pub fn agent_portfolio(&self, agent: &PublicKey) -> (r: Option<KeyInfo>)
        requires
            self.wf(),
        ensures
            r == (if self.agents().contains_key(agent@) {
                Some(KeyInfo { portfolio_id: self.agents()[agent@] })
            } else {
                None::<KeyInfo>
            }),
    {
        match find_key(&self.agent_keys, agent) {
            Some(i) => {
                proof {
                    lemma_key_index(self.agent_keys@, i as int);
                }
                Some(KeyInfo { portfolio_id: self.agent_portfolios[i] })
            },
            None => None,
        }
    }

    /// The owner key of portfolio `id`.
    pub fn owner_of(&self, id: PortfolioId) -> (r: &PublicKey)
        requires
            self.wf(),
            self.portfolio_exists(id),
        ensures
            r@ == self.portfolio_owner(id),
    {
        &self.portfolio_owners[(id - 1) as usize]
    }

    /// The portfolio with this id, if it exists.
    pub fn get_portfolio(&self, portfolio_id: PortfolioId) -> (r: Option<PortfolioInfo>)
        requires
            self.wf(),
        ensures
            r is Some <==> self.portfolio_exists(portfolio_id),
            r matches Some(p) ==> p.owner_key@ == self.portfolio_owner(portfolio_id),
    {
        if portfolio_id == 0 || portfolio_id > self.global_portfolio_counter {
            return None;
        }
        let owner_key = self.portfolio_owners[(portfolio_id - 1) as usize].copy();
        Some(PortfolioInfo { owner_key })
    }

    /// The owner record of a key, if it has one.
    pub fn get_user(&self, user_pk: &PublicKey) -> (r: Option<UserInfo>)
        requires
            self.wf(),
        ensures
            r is Some <==> self.owners().contains_key(user_pk@),
            r matches Some(u) ==> (u.nonce, u.portfolios@) == self.owners()[user_pk@],
    {
        match find_key(&self.owner_keys, user_pk) {
            Some(i) => {
                proof {
                    lemma_key_index(self.owner_keys@, i as int);
                }
                Some(UserInfo { nonce: self.owner_nonces[i], portfolios: copy_ids(&self.owner_portfolios[i]) })
            },
            None => None,
        }
    }

    /// Every owned portfolio exists and is owned by the key whose record lists
    /// it; every agent is bound to an existing portfolio; every portfolio's
    /// owner has a record.
    pub proof fn lemma_consistent(&self)
        requires
            self.wf(),
        ensures
            self.portfolios().len() == self.counter(),
            forall|k: KeyView, j: int|
                self.owners().contains_key(k) && 0 <= j < self.owners()[k].1.len() ==> {
                    let id = #[trigger] self.owners()[k].1[j];
                    &&& self.portfolio_exists(id)
                    &&& self.portfolio_owner(id) == k
                },
            forall|k: KeyView| #[trigger]
                self.agents().contains_key(k) ==> self.portfolio_exists(self.agents()[k]),
            forall|id: PortfolioId| #[trigger]
                self.portfolio_exists(id) ==> self.owners().contains_key(self.portfolio_owner(id)),
    {
        assert forall|k: KeyView, j: int|
            self.owners().contains_key(k) && 0 <= j < self.owners()[k].1.len() implies {
                let id = #[trigger] self.owners()[k].1[j];
                &&& self.portfolio_exists(id)
                &&& self.portfolio_owner(id) == k
            } by {
            let i = key_index(self.owner_keys@, k);
            let id = self.owner_portfolios@[i]@[j];
            assert(1 <= id <= self.global_portfolio_counter);
        }
        assert forall|k: KeyView| #[trigger]
            self.agents().contains_key(k) implies self.portfolio_exists(self.agents()[k]) by {
            let i = key_index(self.agent_keys@, k);
            assert(1 <= self.agent_portfolios@[i]);
        }
        assert forall|id: PortfolioId| #[trigger]
            self.portfolio_exists(id) implies self.owners().contains_key(self.portfolio_owner(id)) by {
            assert(has_key(self.owner_keys@, self.portfolio_owners@[id - 1]@));
        }
    }
}

} // verus!
