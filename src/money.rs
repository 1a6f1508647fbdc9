//! The value-transfer contract: its state, its call data, and the validation
//! of a transfer into an update of that state.

use crate::crypto::{add_opt, commit_sum, commit_sum_of, point_add, value_commit, value_commit_of, EncryptedPayload};
use crate::error::Error;
use crate::field::{all_fresh, check_fresh, Fe};
use crate::merkle::MerkleTree;
use vstd::prelude::*;

verus! {

/// A non-anonymous input, minted by an authorised key.
#[derive(Clone, Copy, Debug, PartialEq, Eq, Structural)]
pub struct ClearInput {
    pub value: u64,
    pub token_id: Fe,
    pub value_blind: Fe,
    pub signature_public: Fe,
}

/// An anonymous input: a coin of the tree, spent by revealing its nullifier.
#[derive(Clone, Copy, Debug, PartialEq, Eq, Structural)]
pub struct Input {
    pub value_commit: Fe,
    /// The root against which the coin's membership was proved.
    pub merkle_root: Fe,
    pub nullifier: Fe,
    /// Zero, or the function that the transaction must also call.
    pub spend_hook: Fe,
    /// The data that the spend hook checks.
    pub user_data: Fe,
    pub signature_public: Fe,
}

/// A new coin.
#[derive(Clone, Debug)]
pub struct Output {
    pub value_commit: Fe,
    pub coin: Fe,
    pub enc_note: EncryptedPayload,
}

/// Call data of a transfer.
#[derive(Clone, Debug)]
pub struct TransferCall {
    pub clear_inputs: Vec<ClearInput>,
    pub inputs: Vec<Input>,
    pub outputs: Vec<Output>,
}

/// State of the value-transfer contract.
pub struct MoneyState {
    /// The coins, in the order they were created.
    pub tree: MerkleTree,
    /// Nullifiers of the coins spent so far.
    pub nullifiers: Vec<Fe>,
    pub cashier_public: Fe,
    pub faucet_public: Fe,
}

/// What a valid transfer changes: nullifiers to record and coins to append.
#[derive(Clone, Debug)]
pub struct MoneyUpdate {
    pub nullifiers: Vec<Fe>,
    pub coins: Vec<Fe>,
}

impl MoneyState {
    pub open spec fn wf(&self) -> bool {
        self.tree.wf()
    }

    /// A state with no coin and no nullifier.
    pub fn new(cashier_public: Fe, faucet_public: Fe) -> (r: MoneyState)
        ensures
            r.wf(),
            r.tree@ == Seq::<Fe>::empty(),
            r.nullifiers@ == Seq::<Fe>::empty(),
            r.cashier_public == cashier_public,
            r.faucet_public == faucet_public,
    {
        MoneyState { tree: MerkleTree::new(), nullifiers: Vec::new(), cashier_public, faucet_public }
    }
}

/// The nullifiers that the inputs reveal.
pub open spec fn input_nullifiers(inputs: Seq<Input>) -> Seq<Fe> {
    inputs.map_values(|x: Input| x.nullifier)
}

/// Every clear input is signed by the cashier or the faucet.
pub open spec fn clear_inputs_authorised(s: MoneyState, c: Seq<ClearInput>) -> bool {
    forall|i: int|
        0 <= i < c.len() ==> (#[trigger] c[i]).signature_public == s.cashier_public
            || c[i].signature_public == s.faucet_public
}

/// Every input was proved against a root that the tree has had.
pub open spec fn roots_known(tree: MerkleTree, inputs: Seq<Input>) -> bool {
    forall|i: int| 0 <= i < inputs.len() ==> tree.had_root(#[trigger] inputs[i].merkle_root)
}

/// Every input with a spend hook is spent alongside a call of that function.
pub open spec fn hooks_present(call_ids: Seq<Fe>, call_index: int, inputs: Seq<Input>) -> bool {
    forall|i: int|
        0 <= i < inputs.len() && (#[trigger] inputs[i]).spend_hook != Fe::spec_zero() ==> exists|
            j: int,
        |
            0 <= j < call_ids.len() && j != call_index && #[trigger] call_ids[j]
                == inputs[i].spend_hook
}

/// The sum of the commitments of the clear inputs.
pub open spec fn clear_sum_of(c: Seq<ClearInput>) -> Option<Fe>
    decreases c.len(),
{
    if c.len() == 0 {
        Some(Fe::spec_zero())
    } else {
        add_opt(clear_sum_of(c.drop_last()), value_commit_of(c.last().value, c.last().value_blind))
    }
}

pub open spec fn input_commits(inputs: Seq<Input>) -> Seq<Fe> {
    inputs.map_values(|x: Input| x.value_commit)
}

pub open spec fn output_commits(outputs: Seq<Output>) -> Seq<Fe> {
    outputs.map_values(|x: Output| x.value_commit)
}

/// The commitments of what goes in equal, as one point, those of what goes out.
pub open spec fn balanced(c: TransferCall) -> bool {
    let ins = add_opt(clear_sum_of(c.clear_inputs@), commit_sum_of(input_commits(c.inputs@)));
    ins.is_some() && ins == commit_sum_of(output_commits(c.outputs@))
}

/// The outcome of validating a transfer: the first check that fails, in
/// order, else success.
pub open spec fn transfer_check(
    s: MoneyState,
    call_ids: Seq<Fe>,
    call_index: int,
    c: TransferCall,
) -> Result<(), Error> {
    if !all_fresh(s.nullifiers@, input_nullifiers(c.inputs@)) {
        Err(Error::DoubleSpend)
    } else if !clear_inputs_authorised(s, c.clear_inputs@) {
        Err(Error::SignatureVerificationFailed)
    } else if !roots_known(s.tree, c.inputs@) {
        Err(Error::BadAuthenticationPath)
    } else if !hooks_present(call_ids, call_index, c.inputs@) {
        Err(Error::SpendHookMismatch)
    } else if !balanced(c) {
        Err(Error::InsufficientBalance)
    } else {
        Ok(())
    }
}

/// The update a valid transfer makes.
pub open spec fn transfer_update_ok(c: TransferCall, u: MoneyUpdate) -> bool {
    &&& u.nullifiers@ == input_nullifiers(c.inputs@)
    &&& u.coins@ == c.outputs@.map_values(|x: Output| x.coin)
}

fn check_clear(s: &MoneyState, c: &Vec<ClearInput>) -> (r: bool)
    ensures
        r == clear_inputs_authorised(*s, c@),
{
    let mut i: usize = 0;
    while i < c.len()
        invariant
            i <= c.len(),
            forall|k: int|
                0 <= k < i ==> (#[trigger] c@[k]).signature_public == s.cashier_public
                    || c@[k].signature_public == s.faucet_public,
        decreases c.len() - i,
    {
        let p = c[i].signature_public;
        if p != s.cashier_public && p != s.faucet_public {
            assert(!(c@[i as int].signature_public == s.cashier_public || c@[i as int].signature_public == s.faucet_public));
            return false;
        }
        i = i + 1;
    }
    true
}

fn check_roots(tree: &MerkleTree, inputs: &Vec<Input>) -> (r: bool)
    requires
        tree.wf(),
    ensures
        r == roots_known(*tree, inputs@),
{
    let mut i: usize = 0;
    while i < inputs.len()
        invariant
            tree.wf(),
            i <= inputs.len(),
            forall|k: int| 0 <= k < i ==> tree.had_root(#[trigger] inputs@[k].merkle_root),
        decreases inputs.len() - i,
    {
        if !tree.contains_root(inputs[i].merkle_root) {
            return false;
        }
        i = i + 1;
    }
    true
}

fn check_hooks(call_ids: &Vec<Fe>, call_index: usize, inputs: &Vec<Input>) -> (r: bool)
    ensures
        r == hooks_present(call_ids@, call_index as int, inputs@),
{
    let mut i: usize = 0;
    while i < inputs.len()
        invariant
            i <= inputs.len(),
            hooks_present(call_ids@, call_index as int, inputs@.take(i as int)),
        decreases inputs.len() - i,
    {
        let h = inputs[i].spend_hook;
        if !h.is_zero() {
            let mut found = false;
            let mut j: usize = 0;
            while j < call_ids.len()
                invariant
                    j <= call_ids.len(),
                    found == exists|k: int|
                        0 <= k < j && k != call_index && #[trigger] call_ids@[k] == h,
                decreases call_ids.len() - j,
            {
                if j != call_index && call_ids[j] == h {
                    found = true;
                }
                j = j + 1;
            }
            if !found {
                assert(!hooks_present(call_ids@, call_index as int, inputs@)) by {
                    assert(inputs@[i as int].spend_hook != Fe::spec_zero());
                }
                return false;
            }
        }
        assert(hooks_present(call_ids@, call_index as int, inputs@.take(i + 1))) by {
            assert forall|a: int|
                0 <= a < i + 1 && (#[trigger] inputs@.take(i + 1)[a]).spend_hook
                    != Fe::spec_zero() implies exists|j: int|
                0 <= j < call_ids@.len() && j != call_index && #[trigger] call_ids@[j]
                    == inputs@.take(i + 1)[a].spend_hook by {
                if a < i {
                    assert(inputs@.take(i as int)[a] == inputs@.take(i + 1)[a]);
                }
            }
        }
        i = i + 1;
    }
    assert(inputs@.take(inputs.len() as int) =~= inputs@);
    true
}

fn clear_sum(c: &Vec<ClearInput>) -> (r: Option<Fe>)
    ensures
        r == clear_sum_of(c@),
{
    let mut acc: Option<Fe> = Some(Fe::zero());
    let mut i: usize = 0;
    while i < c.len()
        invariant
            i <= c.len(),
            acc == clear_sum_of(c@.take(i as int)),
        decreases c.len() - i,
    {
        assert(c@.take(i + 1).drop_last() =~= c@.take(i as int));
        let v = value_commit(c[i].value, c[i].value_blind);
        acc = match (acc, v) {
            (Some(x), Some(y)) => point_add(x, y),
            _ => None,
        };
        i = i + 1;
    }
    assert(c@.take(c.len() as int) =~= c@);
    acc
}

fn input_commit_vec(inputs: &Vec<Input>) -> (r: Vec<Fe>)
    ensures
        r@ == input_commits(inputs@),
{
    let mut out: Vec<Fe> = Vec::new();
    let mut i: usize = 0;
    while i < inputs.len()
        invariant
            i <= inputs.len(),
            out@ == input_commits(inputs@.take(i as int)),
        decreases inputs.len() - i,
    {
        out.push(inputs[i].value_commit);
        i = i + 1;
        assert(out@ =~= input_commits(inputs@.take(i as int)));
    }
    assert(inputs@.take(inputs.len() as int) =~= inputs@);
    out
}

fn output_commit_vec(outputs: &Vec<Output>) -> (r: Vec<Fe>)
    ensures
        r@ == output_commits(outputs@),
{
    let mut out: Vec<Fe> = Vec::new();
    let mut i: usize = 0;
    while i < outputs.len()
        invariant
            i <= outputs.len(),
            out@ == output_commits(outputs@.take(i as int)),
        decreases outputs.len() - i,
    {
        out.push(outputs[i].value_commit);
        i = i + 1;
        assert(out@ =~= output_commits(outputs@.take(i as int)));
    }
    assert(outputs@.take(outputs.len() as int) =~= outputs@);
    out
}

fn check_balance(c: &TransferCall) -> (r: bool)
    ensures
        r == balanced(*c),
{
    let ins = match (clear_sum(&c.clear_inputs), commit_sum(&input_commit_vec(&c.inputs))) {
        (Some(x), Some(y)) => point_add(x, y),
        _ => None,
    };
    match ins {
        Some(x) => commit_sum(&output_commit_vec(&c.outputs)) == Some(x),
        None => false,
    }
}

/// Validates a transfer, the call at `call_index` of a transaction whose calls
/// have the function ids `call_ids`, against the state; returns the update
/// it makes, or the first check that fails.
pub fn validate_transfer(s: &MoneyState, call_ids: &Vec<Fe>, call_index: usize, c: &TransferCall) -> (r: Result<MoneyUpdate, Error>)
    requires
        s.wf(),
    ensures
        match r {
            Ok(u) => transfer_check(*s, call_ids@, call_index as int, *c) == Ok::<(), Error>(())
                && transfer_update_ok(*c, u),
            Err(e) => transfer_check(*s, call_ids@, call_index as int, *c) == Err::<(), Error>(e),
        },
{
    let mut nullifiers: Vec<Fe> = Vec::new();
    let mut i: usize = 0;
    while i < c.inputs.len()
        invariant
            i <= c.inputs.len(),
            nullifiers@ == c.inputs@.take(i as int).map_values(|x: Input| x.nullifier),
        decreases c.inputs.len() - i,
    {
        nullifiers.push(c.inputs[i].nullifier);
        i = i + 1;
        assert(nullifiers@ =~= c.inputs@.take(i as int).map_values(|x: Input| x.nullifier));
    }
    assert(c.inputs@.take(c.inputs.len() as int) =~= c.inputs@);
    if !check_fresh(&s.nullifiers, &nullifiers) {
        return Err(Error::DoubleSpend);
    }
    if !check_clear(s, &c.clear_inputs) {
        return Err(Error::SignatureVerificationFailed);
    }
    if !check_roots(&s.tree, &c.inputs) {
        return Err(Error::BadAuthenticationPath);
    }
    if !check_hooks(call_ids, call_index, &c.inputs) {
        return Err(Error::SpendHookMismatch);
    }
    if !check_balance(c) {
        return Err(Error::InsufficientBalance);
    }
    let mut coins: Vec<Fe> = Vec::new();
    let mut i: usize = 0;
    while i < c.outputs.len()
        invariant
            i <= c.outputs.len(),
            coins@ == c.outputs@.take(i as int).map_values(|x: Output| x.coin),
        decreases c.outputs.len() - i,
    {
        coins.push(c.outputs[i].coin);
        i = i + 1;
        assert(coins@ =~= c.outputs@.take(i as int).map_values(|x: Output| x.coin));
    }
    assert(c.outputs@.take(c.outputs.len() as int) =~= c.outputs@);
    Ok(MoneyUpdate { nullifiers, coins })
}

impl MoneyState {
    /// Records the nullifiers and appends the coins of an update.
    pub fn apply(&mut self, u: &MoneyUpdate)
        requires
            old(self).wf(),
        ensures
            final(self).wf(),
            final(self).nullifiers@ == old(self).nullifiers@ + u.nullifiers@,
            final(self).tree@ == old(self).tree@ + u.coins@,
            final(self).cashier_public == old(self).cashier_public,
            final(self).faucet_public == old(self).faucet_public,
    {
        let mut i: usize = 0;
        while i < u.nullifiers.len()
            invariant
                i <= u.nullifiers.len(),
                self.nullifiers@ == old(self).nullifiers@ + u.nullifiers@.take(i as int),
                self.tree == old(self).tree,
                self.cashier_public == old(self).cashier_public,
                self.faucet_public == old(self).faucet_public,
            decreases u.nullifiers.len() - i,
        {
            self.nullifiers.push(u.nullifiers[i]);
            i = i + 1;
            assert(self.nullifiers@ =~= old(self).nullifiers@ + u.nullifiers@.take(i as int));
        }
        assert(u.nullifiers@.take(u.nullifiers.len() as int) =~= u.nullifiers@);
        let mut i: usize = 0;
        while i < u.coins.len()
            invariant
                i <= u.coins.len(),
                self.tree.wf(),
                self.tree@ == old(self).tree@ + u.coins@.take(i as int),
                self.nullifiers@ == old(self).nullifiers@ + u.nullifiers@,
                self.cashier_public == old(self).cashier_public,
                self.faucet_public == old(self).faucet_public,
            decreases u.coins.len() - i,
        {
            self.tree.append(u.coins[i]);
            i = i + 1;
            assert(self.tree@ =~= old(self).tree@ + u.coins@.take(i as int));
        }
        assert(u.coins@.take(u.coins.len() as int) =~= u.coins@);
    }
}

} // verus!
