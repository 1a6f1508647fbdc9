//! The state registry and the transaction pipeline: every call of a
//! transaction is validated against one snapshot of the registry, and the
//! updates are applied, in call order, only when all of them, the proofs and
//! the signatures pass.

use crate::dao::{
    dao_applied, exec_check, exec_func_id, mint_func_id, propose_check, propose_func_id,
    transfer_func_id, validate_exec, validate_mint, validate_propose, validate_vote, vote_check,
    vote_func_id, DaoExecCall, DaoMintCall, DaoProposeCall, DaoState, DaoUpdate, DaoVoteCall,
};
use crate::error::Error;
use crate::field::Fe;
use crate::money::{
    transfer_check, transfer_update_ok, validate_transfer, MoneyState, MoneyUpdate, TransferCall,
};
use crate::note::fe;
use vstd::prelude::*;

verus! {

/// Identifier of the value-transfer contract.
pub open spec fn money_contract_id() -> Fe {
    fe(100)
}

/// Identifier of the DAO contract.
pub open spec fn dao_contract_id() -> Fe {
    fe(200)
}

pub fn money_contract_id_exec() -> (r: Fe)
    ensures
        r == money_contract_id(),
{
    Fe::from_u64(100)
}

pub fn dao_contract_id_exec() -> (r: Fe)
    ensures
        r == dao_contract_id(),
{
    Fe::from_u64(200)
}

/// The state of one contract.
pub enum ContractState {
    Money(MoneyState),
    Dao(DaoState),
}

/// The call data of a function call, by function.
#[derive(Clone, Debug)]
pub enum CallData {
    Transfer(TransferCall),
    DaoMint(DaoMintCall),
    DaoPropose(DaoProposeCall),
    DaoVote(DaoVoteCall),
    DaoExec(DaoExecCall),
}

/// One call of a contract function, with its proof.
#[derive(Clone, Debug)]
pub struct FuncCall {
    pub call_data: CallData,
    pub proof: Vec<u8>,
}

/// Calls, and the signatures over them.
#[derive(Clone, Debug)]
pub struct Transaction {
    pub func_calls: Vec<FuncCall>,
    pub signatures: Vec<Vec<u8>>,
}

/// A change to one contract's state.
#[derive(Clone, Debug)]
pub enum Update {
    Money(MoneyUpdate),
    Dao(DaoUpdate),
}

/// The function id of a call.
pub open spec fn func_id_of(c: FuncCall) -> Fe {
    match c.call_data {
        CallData::Transfer(_) => transfer_func_id(),
        CallData::DaoMint(_) => mint_func_id(),
        CallData::DaoPropose(_) => propose_func_id(),
        CallData::DaoVote(_) => vote_func_id(),
        CallData::DaoExec(_) => exec_func_id(),
    }
}

pub open spec fn func_ids(calls: Seq<FuncCall>) -> Seq<Fe> {
    calls.map_values(|c: FuncCall| func_id_of(c))
}

/// The transfer that an exec call at `i` spends the treasury with: the first
/// call, when the exec call is the second.
pub open spec fn exec_transfer(calls: Seq<FuncCall>, i: int) -> Option<TransferCall> {
    if i == 1 && calls[0].call_data is Transfer {
        Some(calls[0].call_data->Transfer_0)
    } else {
        None
    }
}

impl FuncCall {
    pub fn func_id(&self) -> (r: Fe)
        ensures
            r == func_id_of(*self),
    {
        match &self.call_data {
            CallData::Transfer(_) => Fe::from_u64(1),
            CallData::DaoMint(_) => Fe::from_u64(2),
            CallData::DaoPropose(_) => Fe::from_u64(3),
            CallData::DaoVote(_) => Fe::from_u64(4),
            CallData::DaoExec(_) => crate::dao::exec_func_id_exec(),
        }
    }
}

/// The per-contract states, keyed by contract identifier.
pub struct StateRegistry {
    pub money: Option<MoneyState>,
    pub dao: Option<DaoState>,
}

impl StateRegistry {
    pub open spec fn wf(&self) -> bool {
        &&& (self.money matches Some(m) ==> m.wf())
        &&& (self.dao matches Some(d) ==> d.wf())
    }

    /// A registry with no contract registered.
    pub fn new() -> (r: StateRegistry)
        ensures
            r.wf(),
            r.money is None,
            r.dao is None,
    {
        StateRegistry { money: None, dao: None }
    }

    /// Registers the initial state of a contract.
    pub fn register(&mut self, id: Fe, state: ContractState) -> (r: Result<(), Error>)
        requires
            old(self).wf(),
            state matches ContractState::Money(m) ==> m.wf(),
            state matches ContractState::Dao(d) ==> d.wf(),
        ensures
            final(self).wf(),
            r == (if id != money_contract_id() && id != dao_contract_id() {
                Err(Error::UnknownContract)
            } else if (id == money_contract_id()) != (state is Money) {
                Err(Error::TypeMismatch)
            } else if (id == money_contract_id() && old(self).money is Some) || (id
                == dao_contract_id() && old(self).dao is Some) {
                Err(Error::DuplicateContract)
            } else {
                Ok(())
            }),
            r is Err ==> *final(self) == *old(self),
            r is Ok ==> match state {
                ContractState::Money(m) => final(self).money == Some(m) && final(self).dao
                    == old(self).dao,
                ContractState::Dao(d) => final(self).dao == Some(d) && final(self).money
                    == old(self).money,
            },
    {
        let is_money = id == money_contract_id_exec();
        if !is_money && id != dao_contract_id_exec() {
            return Err(Error::UnknownContract);
        }
        match state {
            ContractState::Money(m) => {
                if !is_money {
                    return Err(Error::TypeMismatch);
                }
                if self.money.is_some() {
                    return Err(Error::DuplicateContract);
                }
                self.money = Some(m);
            },
            ContractState::Dao(d) => {
                if is_money {
                    return Err(Error::TypeMismatch);
                }
                if self.dao.is_some() {
                    return Err(Error::DuplicateContract);
                }
                self.dao = Some(d);
            },
        }
        Ok(())
    }

    /// The state of the value-transfer contract, by its identifier.
    pub fn lookup_money(&self, id: Fe) -> (r: Result<&MoneyState, Error>)
        ensures
            r == (if id == money_contract_id() {
                match self.money {
                    Some(m) => Ok(&m),
                    None => Err(Error::UnknownContract),
                }
            } else if id == dao_contract_id() && self.dao is Some {
                Err(Error::TypeMismatch)
            } else {
                Err(Error::UnknownContract)
            }),
    {
        if id == money_contract_id_exec() {
            match &self.money {
                Some(m) => Ok(m),
                None => Err(Error::UnknownContract),
            }
        } else if id == dao_contract_id_exec() && self.dao.is_some() {
            Err(Error::TypeMismatch)
        } else {
            Err(Error::UnknownContract)
        }
    }

    /// The state of the DAO contract, by its identifier.
    pub fn lookup_dao(&self, id: Fe) -> (r: Result<&DaoState, Error>)
        ensures
            r == (if id == dao_contract_id() {
                match self.dao {
                    Some(d) => Ok(&d),
                    None => Err(Error::UnknownContract),
                }
            } else if id == money_contract_id() && self.money is Some {
                Err(Error::TypeMismatch)
            } else {
                Err(Error::UnknownContract)
            }),
    {
        if id == dao_contract_id_exec() {
            match &self.dao {
                Some(d) => Ok(d),
                None => Err(Error::UnknownContract),
            }
        } else if id == money_contract_id_exec() && self.money.is_some() {
            Err(Error::TypeMismatch)
        } else {
            Err(Error::UnknownContract)
        }
    }
}

/// The outcome of validating the call at `i` against the registry.
pub open spec fn call_check(reg: StateRegistry, calls: Seq<FuncCall>, i: int) -> Result<(), Error> {
    match calls[i].call_data {
        CallData::Transfer(c) => match reg.money {
            Some(m) => transfer_check(m, func_ids(calls), i, c),
            None => Err(Error::UnknownContract),
        },
        CallData::DaoMint(_) => if reg.dao is Some {
            Ok(())
        } else {
            Err(Error::UnknownContract)
        },
        CallData::DaoPropose(c) => match (reg.money, reg.dao) {
            (Some(m), Some(d)) => propose_check(m.tree, m.nullifiers@, d, c),
            _ => Err(Error::UnknownContract),
        },
        CallData::DaoVote(c) => match (reg.money, reg.dao) {
            (Some(m), Some(d)) => match vote_check(m.tree, m.nullifiers@, d, c) {
                Ok(_) => Ok(()),
                Err(e) => Err(e),
            },
            _ => Err(Error::UnknownContract),
        },
        CallData::DaoExec(c) => match reg.dao {
            Some(d) => match exec_check(d, exec_transfer(calls, i), c) {
                Ok(_) => Ok(()),
                Err(e) => Err(e),
            },
            None => Err(Error::UnknownContract),
        },
    }
}

/// `u` is the update that the valid call at `i` makes.
pub open spec fn update_matches(reg: StateRegistry, calls: Seq<FuncCall>, i: int, u: Update) -> bool {
    match (calls[i].call_data, u) {
        (CallData::Transfer(c), Update::Money(mu)) => transfer_update_ok(c, mu),
        (CallData::DaoMint(c), Update::Dao(du)) => du == DaoUpdate::Mint { dao_bulla: c.dao_bulla },
        (CallData::DaoPropose(c), Update::Dao(du)) => du == DaoUpdate::Propose {
            proposal_bulla: c.proposal_bulla,
        },
        (
            CallData::DaoVote(c),
            Update::Dao(DaoUpdate::Vote { index, yes_commit, all_commit, nullifiers }),
        ) => {
            &&& index == vote_check(reg.money->Some_0.tree, reg.money->Some_0.nullifiers@, reg.dao->Some_0, c)->Ok_0
            &&& yes_commit == c.yes_vote_commit
            &&& all_commit == c.all_vote_commit
            &&& nullifiers@ == crate::dao::gov_nullifiers(c.inputs@)
        },
        (CallData::DaoExec(c), Update::Dao(du)) => du == DaoUpdate::Exec {
            index: exec_check(reg.dao->Some_0, exec_transfer(calls, i), c)->Ok_0,
        },
        _ => false,
    }
}

/// `us` are the updates that the calls make, one per call, in order.
pub open spec fn updates_match_all(reg: StateRegistry, calls: Seq<FuncCall>, us: Seq<Update>) -> bool {
    us.len() == calls.len() && forall|i: int|
        0 <= i < calls.len() ==> #[trigger] update_matches(reg, calls, i, us[i])
}

/// The outcome of validating the first `n` calls: the first failure, if any.
pub open spec fn calls_check(reg: StateRegistry, calls: Seq<FuncCall>, n: nat) -> Result<(), Error>
    decreases n,
{
    if n == 0 {
        Ok(())
    } else {
        match calls_check(reg, calls, (n - 1) as nat) {
            Err(e) => Err(e),
            Ok(_) => call_check(reg, calls, n - 1),
        }
    }
}

/// The outcome of a transaction: the first failing call, else the proofs,
/// else the signatures.
pub open spec fn tx_outcome(
    reg: StateRegistry,
    calls: Seq<FuncCall>,
    proofs_valid: bool,
    signatures_valid: bool,
) -> Result<(), Error> {
    match calls_check(reg, calls, calls.len()) {
        Err(e) => Err(e),
        Ok(_) => if !proofs_valid {
            Err(Error::ProofVerificationFailed)
        } else if !signatures_valid {
            Err(Error::SignatureVerificationFailed)
        } else {
            Ok(())
        },
    }
}

/// The money state after a money update.
pub open spec fn money_applied(old: MoneyState, u: MoneyUpdate, new: MoneyState) -> bool {
    &&& new.nullifiers@ == old.nullifiers@ + u.nullifiers@
    &&& new.tree@ == old.tree@ + u.coins@
    &&& new.cashier_public == old.cashier_public
    &&& new.faucet_public == old.faucet_public
}

/// The registry `b` is `a` after the update `u`.
pub open spec fn update_step(a: StateRegistry, u: Update, b: StateRegistry) -> bool {
    match u {
        Update::Money(mu) => match a.money {
            Some(x) => b.money matches Some(y) && money_applied(x, mu, y) && b.dao == a.dao,
            None => b == a,
        },
        Update::Dao(du) => match a.dao {
            Some(x) => b.dao matches Some(y) && dao_applied(x, du, y) && b.money == a.money,
            None => b == a,
        },
    }
}

/// The registry `b` is `a` after the updates `us`, in order.
pub open spec fn applied_chain(a: StateRegistry, us: Seq<Update>, b: StateRegistry) -> bool
    decreases us.len(),
{
    if us.len() == 0 {
        b == a
    } else {
        exists|m: StateRegistry|
            #![trigger update_step(m, us.last(), b)]
            applied_chain(a, us.drop_last(), m) && update_step(m, us.last(), b)
    }
}

proof fn lemma_failure_sticks(reg: StateRegistry, calls: Seq<FuncCall>, n: nat, m: nat)
    requires
        n <= m,
        calls_check(reg, calls, n) is Err,
    ensures
        calls_check(reg, calls, m) == calls_check(reg, calls, n),
    decreases m - n,
{
    if n < m {
        lemma_failure_sticks(reg, calls, n, (m - 1) as nat);
    }
}

fn func_id_vec(calls: &Vec<FuncCall>) -> (r: Vec<Fe>)
    ensures
        r@ == func_ids(calls@),
{
    let mut out: Vec<Fe> = Vec::new();
    let mut i: usize = 0;
    while i < calls.len()
        invariant
            i <= calls.len(),
            out@ == func_ids(calls@.take(i as int)),
        decreases calls.len() - i,
    {
        out.push(calls[i].func_id());
        i = i + 1;
        assert(out@ =~= func_ids(calls@.take(i as int)));
    }
    assert(calls@.take(calls.len() as int) =~= calls@);
    out
}

impl StateRegistry {
    /// Validates the call at `i` against this registry.
    fn check_call(&self, tx: &Transaction, ids: &Vec<Fe>, i: usize) -> (r: Result<Update, Error>)
        requires
            self.wf(),
            i < tx.func_calls.len(),
            ids@ == func_ids(tx.func_calls@),
        ensures
            match r {
                Ok(u) => call_check(*self, tx.func_calls@, i as int) == Ok::<(), Error>(())
                    && update_matches(*self, tx.func_calls@, i as int, u),
                Err(e) => call_check(*self, tx.func_calls@, i as int) == Err::<(), Error>(e),
            },
    {
        match &tx.func_calls[i].call_data {
            CallData::Transfer(c) => match &self.money {
                Some(m) => match validate_transfer(m, ids, i, c) {
                    Ok(u) => Ok(Update::Money(u)),
                    Err(e) => Err(e),
                },
                None => Err(Error::UnknownContract),
            },
            CallData::DaoMint(c) => match &self.dao {
                Some(_) => match validate_mint(c) {
                    Ok(u) => Ok(Update::Dao(u)),
                    Err(e) => Err(e),
                },
                None => Err(Error::UnknownContract),
            },
            CallData::DaoPropose(c) => match (&self.money, &self.dao) {
                (Some(m), Some(d)) => match validate_propose(&m.tree, &m.nullifiers, d, c) {
                    Ok(u) => Ok(Update::Dao(u)),
                    Err(e) => Err(e),
                },
                _ => Err(Error::UnknownContract),
            },
            CallData::DaoVote(c) => match (&self.money, &self.dao) {
                (Some(m), Some(d)) => match validate_vote(&m.tree, &m.nullifiers, d, c) {
                    Ok(u) => Ok(Update::Dao(u)),
                    Err(e) => Err(e),
                },
                _ => Err(Error::UnknownContract),
            },
            CallData::DaoExec(c) => match &self.dao {
                Some(d) => {
                    let t: Option<&TransferCall> = if i == 1 {
                        match &tx.func_calls[0].call_data {
                            CallData::Transfer(t) => Some(t),
                            _ => None,
                        }
                    } else {
                        None
                    };
                    match validate_exec(d, t, c) {
                        Ok(u) => Ok(Update::Dao(u)),
                        Err(e) => Err(e),
                    }
                },
                None => Err(Error::UnknownContract),
            },
        }
    }

    /// Validates every call of a transaction against this registry, which it
    /// does not change; returns the updates in call order, or the error of
    /// the first call that fails.
    pub fn check_transaction(&self, tx: &Transaction) -> (r: Result<Vec<Update>, Error>)
        requires
            self.wf(),
        ensures
            match r {
                Ok(us) => calls_check(*self, tx.func_calls@, tx.func_calls@.len()) == Ok::<
                    (),
                    Error,
                >(()) && updates_match_all(*self, tx.func_calls@, us@),
                Err(e) => calls_check(*self, tx.func_calls@, tx.func_calls@.len()) == Err::<
                    (),
                    Error,
                >(e),
            },
    {
        let ids = func_id_vec(&tx.func_calls);
        let mut us: Vec<Update> = Vec::new();
        let mut i: usize = 0;
        while i < tx.func_calls.len()
            invariant
                self.wf(),
                ids@ == func_ids(tx.func_calls@),
                i <= tx.func_calls.len(),
                us.len() == i,
                calls_check(*self, tx.func_calls@, i as nat) == Ok::<(), Error>(()),
                forall|j: int| 0 <= j < i ==> #[trigger] update_matches(*self, tx.func_calls@, j, us@[j]),
            decreases tx.func_calls.len() - i,
        {
            match self.check_call(tx, &ids, i) {
                Ok(u) => {
                    us.push(u);
                },
                Err(e) => {
                    proof {
                        lemma_failure_sticks(*self, tx.func_calls@, (i + 1) as nat, tx.func_calls@.len());
                    }
                    return Err(e);
                },
            }
            i = i + 1;
        }
        Ok(us)
    }

    /// Applies one update.
    pub fn apply_update(&mut self, u: &Update)
        requires
            old(self).wf(),
        ensures
            final(self).wf(),
            update_step(*old(self), *u, *final(self)),
    {
        match u {
            Update::Money(mu) => match &mut self.money {
                Some(m) => m.apply(mu),
                None => {},
            },
            Update::Dao(du) => match &mut self.dao {
                Some(d) => d.apply(du),
                None => {},
            },
        }
    }

    /// Validates a transaction and, when it is accepted, applies all its
    /// updates in call order. `proofs_valid` and `signatures_valid` are what
    /// the proof system and the signature scheme say of its proofs and
    /// signatures. A transaction that is refused changes nothing.
    pub fn validate(&mut self, tx: &Transaction, proofs_valid: bool, signatures_valid: bool) -> (r:
        Result<(), Error>)
        requires
            old(self).wf(),
        ensures
            final(self).wf(),
            r == tx_outcome(*old(self), tx.func_calls@, proofs_valid, signatures_valid),
            r is Err ==> *final(self) == *old(self),
            r is Ok ==> exists|us: Seq<Update>|
                updates_match_all(*old(self), tx.func_calls@, us) && #[trigger] applied_chain(
                    *old(self),
                    us,
                    *final(self),
                ),
    {
        let us = match self.check_transaction(tx) {
            Ok(us) => us,
            Err(e) => {
                return Err(e);
            },
        };
        if !proofs_valid {
            return Err(Error::ProofVerificationFailed);
        }
        if !signatures_valid {
            return Err(Error::SignatureVerificationFailed);
        }
        let ghost start = *self;
        let mut i: usize = 0;
        assert(us@.take(0) =~= Seq::<Update>::empty());
        while i < us.len()
            invariant
                self.wf(),
                i <= us.len(),
                applied_chain(start, us@.take(i as int), *self),
            decreases us.len() - i,
        {
            let ghost prev = *self;
            self.apply_update(&us[i]);
            proof {
                assert(us@.take(i + 1).drop_last() =~= us@.take(i as int));
                assert(us@.take(i + 1).last() == us@[i as int]);
                assert(applied_chain(start, us@.take(i + 1).drop_last(), prev));
                assert(update_step(prev, us@.take(i + 1).last(), *self));
                assert(exists|m: StateRegistry|
                    #![trigger update_step(m, us@.take(i + 1).last(), *self)]
                    applied_chain(start, us@.take(i + 1).drop_last(), m) && update_step(
                        m,
                        us@.take(i + 1).last(),
                        *self,
                    ));
                assert(applied_chain(start, us@.take(i + 1), *self));
            }
            i = i + 1;
        }
        assert(us@.take(us.len() as int) =~= us@);
        Ok(())
    }
}

/// Applying updates keeps the money state, keeps every recorded nullifier,
/// and records the nullifiers of every money update applied.
proof fn lemma_chain_records_nullifiers(a: StateRegistry, us: Seq<Update>, b: StateRegistry)
    requires
        applied_chain(a, us, b),
        a.money is Some,
    ensures
        b.money is Some,
        forall|n: Fe| a.money->Some_0.nullifiers@.contains(n) ==> b.money->Some_0.nullifiers@.contains(n),
        forall|k: int, n: Fe|
            0 <= k < us.len() && us[k] is Money && (us[k]->Money_0).nullifiers@.contains(n)
                ==> b.money->Some_0.nullifiers@.contains(n),
    decreases us.len(),
{
    if us.len() > 0 {
        let m = choose|m: StateRegistry|
            #![trigger update_step(m, us.last(), b)]
            applied_chain(a, us.drop_last(), m) && update_step(m, us.last(), b);
        lemma_chain_records_nullifiers(a, us.drop_last(), m);
        let old_n = m.money->Some_0.nullifiers@;
        let new_n = b.money->Some_0.nullifiers@;
        if us.last() is Money {
            let added = (us.last()->Money_0).nullifiers@;
            assert(new_n == old_n + added);
            assert forall|n: Fe| old_n.contains(n) implies new_n.contains(n) by {
                let j = choose|j: int| 0 <= j < old_n.len() && old_n[j] == n;
                assert(new_n[j] == n);
            }
            assert forall|n: Fe| added.contains(n) implies new_n.contains(n) by {
                let j = choose|j: int| 0 <= j < added.len() && added[j] == n;
                assert(new_n[old_n.len() + j] == n);
            }
        }
        assert forall|k: int, n: Fe|
            0 <= k < us.len() && us[k] is Money && (us[k]->Money_0).nullifiers@.contains(n)
                implies new_n.contains(n) by {
            if k < us.len() - 1 {
                assert(us.drop_last()[k] == us[k]);
            }
        }
    }
}

/// Once a transaction that spends a coin has been applied, a transaction
/// with a transfer spending a coin with the same nullifier is refused with
/// `DoubleSpend`, whatever its proofs and signatures, unless an earlier call
/// of it already fails.
pub proof fn lemma_double_spend_rejected(
    reg: StateRegistry,
    tx1: Seq<FuncCall>,
    us: Seq<Update>,
    after: StateRegistry,
    k: int,
    a: int,
    tx2: Seq<FuncCall>,
    j: int,
    b: int,
    proofs_valid: bool,
    signatures_valid: bool,
)
    requires
        calls_check(reg, tx1, tx1.len()) == Ok::<(), Error>(()),
        updates_match_all(reg, tx1, us),
        applied_chain(reg, us, after),
        0 <= k < tx1.len(),
        tx1[k].call_data is Transfer,
        0 <= a < (tx1[k].call_data->Transfer_0).inputs@.len(),
        0 <= j < tx2.len(),
        calls_check(after, tx2, j as nat) == Ok::<(), Error>(()),
        tx2[j].call_data is Transfer,
        0 <= b < (tx2[j].call_data->Transfer_0).inputs@.len(),
        (tx2[j].call_data->Transfer_0).inputs@[b].nullifier == (
        tx1[k].call_data->Transfer_0).inputs@[a].nullifier,
    ensures
        tx_outcome(after, tx2, proofs_valid, signatures_valid) == Err::<(), Error>(Error::DoubleSpend),
{
    let n = (tx1[k].call_data->Transfer_0).inputs@[a].nullifier;
    lemma_calls_ok_each(reg, tx1, tx1.len(), k);
    assert(reg.money is Some);
    assert(update_matches(reg, tx1, k, us[k]));
    let mu = us[k]->Money_0;
    assert(mu.nullifiers@[a] == n);
    assert(mu.nullifiers@.contains(n));
    lemma_chain_records_nullifiers(reg, us, after);
    assert(after.money->Some_0.nullifiers@.contains(n));
    let c2 = tx2[j].call_data->Transfer_0;
    assert(crate::money::input_nullifiers(c2.inputs@)[b] == n);
    assert(call_check(after, tx2, j) == Err::<(), Error>(Error::DoubleSpend));
    lemma_state_errors_come_first(after, tx2, j, proofs_valid, signatures_valid);
}

/// When the first `n` calls pass, each of them passes.
proof fn lemma_calls_ok_each(reg: StateRegistry, calls: Seq<FuncCall>, n: nat, k: int)
    requires
        calls_check(reg, calls, n) == Ok::<(), Error>(()),
        0 <= k < n,
    ensures
        call_check(reg, calls, k) == Ok::<(), Error>(()),
    decreases n,
{
    if k < n - 1 {
        lemma_calls_ok_each(reg, calls, (n - 1) as nat, k);
    }
}

/// A transaction that a call refuses is refused for that call's reason,
/// whatever its proofs and signatures: an unbalanced transfer fails with
/// `InsufficientBalance`, never with a proof or signature error.
pub proof fn lemma_state_errors_come_first(
    reg: StateRegistry,
    calls: Seq<FuncCall>,
    i: int,
    proofs_valid: bool,
    signatures_valid: bool,
)
    requires
        0 <= i < calls.len(),
        calls_check(reg, calls, i as nat) == Ok::<(), Error>(()),
        call_check(reg, calls, i) is Err,
    ensures
        tx_outcome(reg, calls, proofs_valid, signatures_valid) == call_check(reg, calls, i),
{
    assert(calls_check(reg, calls, (i + 1) as nat) == call_check(reg, calls, i));
    lemma_failure_sticks(reg, calls, (i + 1) as nat, calls.len());
}

impl StateRegistry {
    /// A registry with the value-transfer contract, whose clear inputs the
    /// cashier and the faucet may sign, and the DAO contract, both empty.
    pub fn init(cashier_public: Fe, faucet_public: Fe) -> (r: StateRegistry)
        ensures
            r.wf(),
            r.money matches Some(m) && m.tree@.len() == 0 && m.nullifiers@.len() == 0
                && m.cashier_public == cashier_public && m.faucet_public == faucet_public,
            r.dao matches Some(d) && d.dao_tree@.len() == 0 && d.proposals@.len() == 0,
    {
        StateRegistry {
            money: Some(MoneyState::new(cashier_public, faucet_public)),
            dao: Some(DaoState::new()),
        }
    }
}

/// Number of outputs of a call: those of a transfer, none otherwise.
pub open spec fn outputs_of(c: FuncCall) -> int {
    match c.call_data {
        CallData::Transfer(t) => t.outputs@.len() as int,
        _ => 0,
    }
}

/// Number of coins that the first `i` calls append to the money tree.
pub open spec fn outputs_before(calls: Seq<FuncCall>, i: int) -> int
    decreases i,
{
    if i <= 0 {
        0
    } else {
        outputs_before(calls, i - 1) + outputs_of(calls[i - 1])
    }
}

proof fn lemma_outputs_before_mono(calls: Seq<FuncCall>, i: int, j: int)
    requires
        0 <= i <= j,
    ensures
        outputs_before(calls, i) <= outputs_before(calls, j),
    decreases j - i,
{
    if i < j {
        lemma_outputs_before_mono(calls, i, j - 1);
    }
}

/// For each call of a transaction, the tree position that its first output
/// takes when the transaction is applied to a money tree of `start` leaves:
/// transfers append their outputs in call order. `None` when the positions
/// do not fit in a `usize`.
pub fn output_positions(tx: &Transaction, start: usize) -> (r: Option<Vec<usize>>)
    ensures
        match r {
            Some(v) => v@.len() == tx.func_calls@.len() && forall|i: int|
                0 <= i < v@.len() ==> #[trigger] v@[i] == start + outputs_before(tx.func_calls@, i),
            None => start + outputs_before(tx.func_calls@, tx.func_calls@.len() as int) > usize::MAX,
        },
{
    let mut v: Vec<usize> = Vec::new();
    let mut next: usize = start;
    let mut i: usize = 0;
    while i < tx.func_calls.len()
        invariant
            i <= tx.func_calls.len(),
            next == start + outputs_before(tx.func_calls@, i as int),
            v@.len() == i,
            forall|j: int| 0 <= j < i ==> #[trigger] v@[j] == start + outputs_before(tx.func_calls@, j),
        decreases tx.func_calls.len() - i,
    {
        v.push(next);
        let n: usize = match &tx.func_calls[i].call_data {
            CallData::Transfer(t) => t.outputs.len(),
            _ => 0,
        };
        if n > usize::MAX - next {
            proof {
                lemma_outputs_before_mono(tx.func_calls@, i + 1, tx.func_calls@.len() as int);
            }
            return None;
        }
        next = next + n;
        i = i + 1;
    }
    Some(v)
}

} // verus!
