use vstd::prelude::*;
use crate::error::ProxyError;

verus! {

/// Token amounts keyed by token id, in ascending order of the id.
#[derive(Clone, Debug)]
pub struct TokenAmounts(pub Vec<(String, u128)>);

/// Moves tokens to another account.
#[derive(Clone, Debug)]
pub struct Transfer {
    pub receiver_id: String,
    pub tokens: TokenAmounts,
    pub memo: Option<String>,
}

/// Withdraws a fungible token.
#[derive(Clone, Debug)]
pub struct FtWithdraw {
    pub token: String,
    pub receiver_id: String,
    pub amount: u128,
    pub memo: Option<String>,
    pub msg: Option<String>,
    /// Storage deposit, in yoctoNEAR.
    pub storage_deposit: Option<u128>,
}

/// Withdraws a non-fungible token.
#[derive(Clone, Debug)]
pub struct NftWithdraw {
    pub token: String,
    pub receiver_id: String,
    pub token_id: String,
    pub memo: Option<String>,
    pub msg: Option<String>,
    /// Storage deposit, in yoctoNEAR.
    pub storage_deposit: Option<u128>,
}

/// Withdraws multi-tokens.
#[derive(Clone, Debug)]
pub struct MtWithdraw {
    pub token: String,
    pub receiver_id: String,
    pub token_ids: Vec<String>,
    pub amounts: Vec<u128>,
    pub memo: Option<String>,
    pub msg: Option<String>,
    /// Storage deposit, in yoctoNEAR.
    pub storage_deposit: Option<u128>,
}

/// Withdraws native NEAR; the amount is in yoctoNEAR.
#[derive(Clone, Debug)]
pub struct NativeWithdraw {
    pub receiver_id: String,
    pub amount: u128,
}

/// Signed per-token balance deltas: positive credits, negative debits,
/// keyed by token id in ascending order.
#[derive(Clone, Debug)]
pub struct TokenDiff {
    pub diff: Vec<(String, i128)>,
    pub memo: Option<String>,
    pub referral: Option<String>,
}

/// No token id occurs twice.
pub open spec fn distinct_tokens(diff: Seq<(String, i128)>) -> bool {
    forall|i: int, j: int|
        0 <= i < diff.len() && 0 <= j < diff.len() && i != j ==> (#[trigger] diff[i]).0@ != (
        #[trigger] diff[j]).0@
}

impl TokenDiff {
    /// Each token id occurs at most once.
    pub open spec fn wf(&self) -> bool {
        distinct_tokens(self.diff@)
    }

    /// The deltas by token id.
    pub open spec fn deltas(&self) -> Map<Seq<char>, i128> {
        Map::new(
            |t: Seq<char>| exists|i: int| 0 <= i < self.diff@.len() && (#[trigger] self.diff@[i]).0@ == t,
            |t: Seq<char>|
                self.diff@[choose|i: int| 0 <= i < self.diff@.len() && (#[trigger] self.diff@[i]).0@ == t].1,
        )
    }

    /// A diff with no deltas.
    pub fn new() -> (r: TokenDiff)
        ensures
            r.wf(),
            r.deltas() == Map::<Seq<char>, i128>::empty(),
            r.memo is None,
            r.referral is None,
    {
        let r = TokenDiff { diff: Vec::new(), memo: None, referral: None };
        assert(r.deltas() =~= Map::<Seq<char>, i128>::empty());
        r
    }

    /// The delta of `token`, if it has one.
    pub fn get(&self, token: &String) -> (r: Option<i128>)
        requires
            self.wf(),
        ensures
            r == (if self.deltas().contains_key(token@) {
                Some(self.deltas()[token@])
            } else {
                None::<i128>
            }),
    {
        let mut i: usize = 0;
        while i < self.diff.len()
            invariant
                i <= self.diff@.len(),
                distinct_tokens(self.diff@),
                forall|j: int| 0 <= j < i ==> (#[trigger] self.diff@[j]).0@ != token@,
            decreases self.diff@.len() - i,
        {
            if self.diff[i].0.eq(token) {
                proof {
                    assert(self.diff@[i as int].0@ == token@);
                    let w = choose|w: int| 0 <= w < self.diff@.len() && (#[trigger] self.diff@[w]).0@ == token@;
                    assert(self.diff@[w].0@ == self.diff@[i as int].0@);
                    assert(w == i as int);
                }
                return Some(self.diff[i].1);
            }
            i = i + 1;
        }
        None
    }

    /// Sets the delta of `token`, replacing any earlier one.
    pub fn set(&mut self, token: String, delta: i128)
        requires
            old(self).wf(),
        ensures
            final(self).wf(),
            final(self).deltas() == old(self).deltas().insert(token@, delta),
            final(self).memo == old(self).memo,
            final(self).referral == old(self).referral,
    {
        let ghost before = self.diff@;
        let mut i: usize = 0;
        while i < self.diff.len()
            invariant
                i <= self.diff@.len(),
                self.diff@ == before,
                before == old(self).diff@,
                distinct_tokens(before),
                self.memo == old(self).memo,
                self.referral == old(self).referral,
                forall|j: int| 0 <= j < i ==> (#[trigger] self.diff@[j]).0@ != token@,
            decreases self.diff@.len() - i,
        {
            if self.diff[i].0 == token {
                let t = token;
                self.diff.set(i, (t, delta));
                proof {
                    let new_diff = self.diff@;
                    assert forall|a: int, b: int|
                        0 <= a < new_diff.len() && 0 <= b < new_diff.len() && a != b implies (
                    #[trigger] new_diff[a]).0@ != (#[trigger] new_diff[b]).0@ by {
                        if a != i && b != i {
                            assert(before[a].0@ != before[b].0@);
                        } else if a == i {
                            assert(before[b].0@ != before[i as int].0@);
                        } else {
                            assert(before[a].0@ != before[i as int].0@);
                        }
                    }
                    assert forall|t2: Seq<char>| #[trigger] self.deltas().contains_key(t2) == old(self).deltas().insert(token@, delta).contains_key(t2) by {
                        if t2 != token@ && old(self).deltas().contains_key(t2) {
                            let w = choose|w: int| 0 <= w < before.len() && (#[trigger] before[w]).0@ == t2;
                            assert(new_diff[w] == before[w]);
                        }
                        if t2 != token@ && self.deltas().contains_key(t2) {
                            let w = choose|w: int| 0 <= w < new_diff.len() && (#[trigger] new_diff[w]).0@ == t2;
                            assert(w != i);
                            assert(new_diff[w] == before[w]);
                        }
                        if t2 == token@ {
                            assert(new_diff[i as int].0@ == t2);
                        }
                    }
                    assert forall|t2: Seq<char>| #[trigger] self.deltas().contains_key(t2) implies self.deltas()[t2] == old(self).deltas().insert(token@, delta)[t2] by {
                        let w = choose|w: int| 0 <= w < new_diff.len() && (#[trigger] new_diff[w]).0@ == t2;
                        if t2 == token@ {
                            assert(new_diff[i as int].0@ == t2);
                            assert(w == i);
                        } else {
                            assert(w != i);
                            assert(new_diff[w] == before[w]);
                            let w0 = choose|w0: int| 0 <= w0 < before.len() && (#[trigger] before[w0]).0@ == t2;
                            assert(before[w0].0@ == before[w].0@);
                        }
                    }
                    assert(self.deltas() =~= old(self).deltas().insert(token@, delta));
                }
                return;
            }
            i = i + 1;
        }
        let n: usize = self.diff.len();
        self.diff.push((token, delta));
        proof {
            let new_diff = self.diff@;
            assert forall|a: int, b: int|
                0 <= a < new_diff.len() && 0 <= b < new_diff.len() && a != b implies (
            #[trigger] new_diff[a]).0@ != (#[trigger] new_diff[b]).0@ by {
                if a < n && b < n {
                    assert(before[a].0@ != before[b].0@);
                }
            }
            assert forall|t2: Seq<char>| #[trigger] self.deltas().contains_key(t2) == old(self).deltas().insert(token@, delta).contains_key(t2) by {
                if t2 != token@ && old(self).deltas().contains_key(t2) {
                    let w = choose|w: int| 0 <= w < before.len() && (#[trigger] before[w]).0@ == t2;
                    assert(new_diff[w] == before[w]);
                }
                if t2 == token@ {
                    assert(new_diff[n as int].0@ == t2);
                }
            }
            assert forall|t2: Seq<char>| #[trigger] self.deltas().contains_key(t2) implies self.deltas()[t2] == old(self).deltas().insert(token@, delta)[t2] by {
                let w = choose|w: int| 0 <= w < new_diff.len() && (#[trigger] new_diff[w]).0@ == t2;
                if t2 == token@ {
                    assert(new_diff[n as int].0@ == t2);
                    assert(w == n);
                } else {
                    assert(w != n);
                    assert(new_diff[w] == before[w]);
                    let w0 = choose|w0: int| 0 <= w0 < before.len() && (#[trigger] before[w0]).0@ == t2;
                    assert(before[w0].0@ == before[w].0@);
                }
            }
            assert(self.deltas() =~= old(self).deltas().insert(token@, delta));
        }
    }
}

/// The deltas of a token diff do not depend on the order in which distinct
/// tokens were set: setting `a` then `b` gives the same deltas as `b` then `a`.
pub proof fn lemma_token_diff_order_independent(
    d: Map<Seq<char>, i128>,
    a: Seq<char>,
    da: i128,
    b: Seq<char>,
    db: i128,
)
    requires
        a != b,
    ensures
        d.insert(a, da).insert(b, db) == d.insert(b, db).insert(a, da),
{
    assert(d.insert(a, da).insert(b, db) =~= d.insert(b, db).insert(a, da));
}

/// The event that reports a token diff.
#[derive(Clone, Debug)]
pub struct TokenDiffEvent {
    pub diff: TokenDiff,
}

/// One asset movement.
#[derive(Clone, Debug)]
pub enum Intent {
    Transfer(Transfer),
    FtWithdraw(FtWithdraw),
    NftWithdraw(NftWithdraw),
    MtWithdraw(MtWithdraw),
    NativeWithdraw(NativeWithdraw),
    TokenDiff(TokenDiff),
}

/// A single intent, as handed on alone.
#[derive(Clone, Debug)]
pub struct MetaIntent {
    pub intent: Intent,
}

/// An ordered batch of intents, submitted together.
#[derive(Clone, Debug)]
pub struct DefuseIntents {
    pub intents: Vec<Intent>,
}

/// The variant of an intent, without its fields.
#[derive(Clone, Copy, Debug, PartialEq, Eq, Structural)]
pub enum IntentKind {
    Transfer,
    FtWithdraw,
    NftWithdraw,
    MtWithdraw,
    NativeWithdraw,
    TokenDiff,
}

impl Intent {
    pub open spec fn kind_spec(&self) -> IntentKind {
        match self {
            Intent::Transfer(_) => IntentKind::Transfer,
            Intent::FtWithdraw(_) => IntentKind::FtWithdraw,
            Intent::NftWithdraw(_) => IntentKind::NftWithdraw,
            Intent::MtWithdraw(_) => IntentKind::MtWithdraw,
            Intent::NativeWithdraw(_) => IntentKind::NativeWithdraw,
            Intent::TokenDiff(_) => IntentKind::TokenDiff,
        }
    }

    /// The variant of this intent.
    pub fn kind(&self) -> (r: IntentKind)
        ensures
            r == self.kind_spec(),
    {
        match self {
            Intent::Transfer(_) => IntentKind::Transfer,
            Intent::FtWithdraw(_) => IntentKind::FtWithdraw,
            Intent::NftWithdraw(_) => IntentKind::NftWithdraw,
            Intent::MtWithdraw(_) => IntentKind::MtWithdraw,
            Intent::NativeWithdraw(_) => IntentKind::NativeWithdraw,
            Intent::TokenDiff(_) => IntentKind::TokenDiff,
        }
    }
}

/// Every intent of the batch is of the allowed variant.
pub open spec fn all_of_kind(batch: Seq<Intent>, allowed: IntentKind) -> bool {
    forall|i: int| 0 <= i < batch.len() ==> (#[trigger] batch[i]).kind_spec() == allowed
}

/// Accepts a batch only when every intent in it is of the allowed variant;
/// one other intent rejects the whole batch. An empty batch passes.
pub fn validate_batch(batch: &Vec<Intent>, allowed: IntentKind) -> (r: Result<(), ProxyError>)
    ensures
        r is Ok <==> all_of_kind(batch@, allowed),
        r is Err ==> r == Err::<(), ProxyError>(ProxyError::IntentTypeNotAllowed),
{
    let mut i: usize = 0;
    while i < batch.len()
        invariant
            i <= batch@.len(),
            forall|j: int| 0 <= j < i ==> (#[trigger] batch@[j]).kind_spec() == allowed,
        decreases batch@.len() - i,
    {
        if batch[i].kind() != allowed {
            return Err(ProxyError::IntentTypeNotAllowed);
        }
        i = i + 1;
    }
    Ok(())
}

} // verus!
