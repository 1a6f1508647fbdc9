//! The DAO-governance contract: DAO and proposal commitments, its state, its
//! call data, and the validation of mint, propose, vote and exec calls.

use crate::crypto::{commit_sum, commit_sum_of, value_commit, value_commit_of, EncryptedPayload};
use crate::error::Error;
use crate::field::{all_fresh, check_fresh, hash_fields, hash_fields_of, Fe};
use crate::merkle::MerkleTree;
use crate::money::TransferCall;
use crate::note::{coin_of, fe, Note};
use vstd::prelude::*;

verus! {

/// The governance parameters of a DAO: the preimage of its bulla.
#[derive(Clone, Copy, Debug, PartialEq, Eq, Structural)]
pub struct DaoParams {
    pub proposer_limit: u64,
    pub quorum: u64,
    pub approval_ratio_quot: u64,
    pub approval_ratio_base: u64,
    pub gov_token_id: Fe,
    pub public_key: Fe,
    pub bulla_blind: Fe,
}

/// A proposal to pay `amount` of `token_id` to `dest`: the preimage of its
/// bulla, together with the DAO's.
#[derive(Clone, Copy, Debug, PartialEq, Eq, Structural)]
pub struct Proposal {
    pub dest: Fe,
    pub amount: u64,
    pub serial: Fe,
    pub token_id: Fe,
    pub blind: Fe,
}

/// The bulla of a DAO.
pub open spec fn dao_bulla_of(p: DaoParams) -> Fe {
    hash_fields_of(
        "daod-dao-bulla"@,
        seq![
            fe(p.proposer_limit),
            fe(p.quorum),
            fe(p.approval_ratio_quot),
            fe(p.approval_ratio_base),
            p.gov_token_id,
            p.public_key,
            p.bulla_blind,
        ],
    )
}

/// The bulla of a proposal made to the DAO with bulla `dao_bulla`.
pub open spec fn proposal_bulla_of(p: Proposal, dao_bulla: Fe) -> Fe {
    hash_fields_of(
        "daod-proposal-bulla"@,
        seq![p.dest, fe(p.amount), p.serial, p.token_id, dao_bulla, p.blind],
    )
}

impl DaoParams {
    pub fn bulla(&self) -> (r: Fe)
        ensures
            r == dao_bulla_of(*self),
    {
        let mut v: Vec<Fe> = Vec::new();
        v.push(Fe::from_u64(self.proposer_limit));
        v.push(Fe::from_u64(self.quorum));
        v.push(Fe::from_u64(self.approval_ratio_quot));
        v.push(Fe::from_u64(self.approval_ratio_base));
        v.push(self.gov_token_id);
        v.push(self.public_key);
        v.push(self.bulla_blind);
        assert(v@ =~= seq![
            fe(self.proposer_limit),
            fe(self.quorum),
            fe(self.approval_ratio_quot),
            fe(self.approval_ratio_base),
            self.gov_token_id,
            self.public_key,
            self.bulla_blind,
        ]);
        proof {
            reveal_strlit("daod-dao-bulla");
        }
        hash_fields("daod-dao-bulla", &v)
    }
}

impl Proposal {
    pub fn bulla(&self, dao_bulla: Fe) -> (r: Fe)
        ensures
            r == proposal_bulla_of(*self, dao_bulla),
    {
        let mut v: Vec<Fe> = Vec::new();
        v.push(self.dest);
        v.push(Fe::from_u64(self.amount));
        v.push(self.serial);
        v.push(self.token_id);
        v.push(dao_bulla);
        v.push(self.blind);
        assert(v@ =~= seq![self.dest, fe(self.amount), self.serial, self.token_id, dao_bulla, self.blind]);
        proof {
            reveal_strlit("daod-proposal-bulla");
        }
        hash_fields("daod-proposal-bulla", &v)
    }
}

/// Function id of the value transfer.
pub open spec fn transfer_func_id() -> Fe {
    fe(1)
}

/// Function id of minting a DAO.
pub open spec fn mint_func_id() -> Fe {
    fe(2)
}

/// Function id of making a proposal.
pub open spec fn propose_func_id() -> Fe {
    fe(3)
}

/// Function id of voting.
pub open spec fn vote_func_id() -> Fe {
    fe(4)
}

/// Function id of executing a proposal; the spend hook of treasury coins.
pub open spec fn exec_func_id() -> Fe {
    fe(5)
}

pub fn exec_func_id_exec() -> (r: Fe)
    ensures
        r == exec_func_id(),
{
    Fe::from_u64(5)
}

/// Call data of minting a DAO.
#[derive(Clone, Copy, Debug, PartialEq, Eq, Structural)]
pub struct DaoMintCall {
    pub dao_bulla: Fe,
}

/// A coin that backs a proposal or a vote.
#[derive(Clone, Copy, Debug, PartialEq, Eq, Structural)]
pub struct GovInput {
    pub value_commit: Fe,
    /// The money-tree root against which the coin's membership was proved.
    pub merkle_root: Fe,
    /// Nullifier of the coin for this proposal (votes only).
    pub nullifier: Fe,
}

/// Call data of making a proposal.
#[derive(Clone, Debug)]
pub struct DaoProposeCall {
    /// The DAO-tree root against which the DAO's membership was proved.
    pub dao_merkle_root: Fe,
    pub inputs: Vec<GovInput>,
    /// Opening of the sum of the inputs' commitments.
    pub total_value: u64,
    pub total_value_blind: Fe,
    pub proposer_limit: u64,
    pub proposal_bulla: Fe,
    /// The proposal, encrypted to the DAO.
    pub enc_note: EncryptedPayload,
}

/// Call data of a vote.
#[derive(Clone, Debug)]
pub struct DaoVoteCall {
    pub proposal_bulla: Fe,
    pub inputs: Vec<GovInput>,
    /// Commitment to the weight of the vote if it is a yes, else to zero.
    pub yes_vote_commit: Fe,
    /// Commitment to the weight of the vote.
    pub all_vote_commit: Fe,
    /// The vote, encrypted to the DAO.
    pub enc_note: EncryptedPayload,
}

/// Call data of executing a proposal.
#[derive(Clone, Copy, Debug, PartialEq, Eq, Structural)]
pub struct DaoExecCall {
    pub proposal_bulla: Fe,
    pub yes_votes_value: u64,
    pub yes_votes_blind: Fe,
    pub all_votes_value: u64,
    pub all_votes_blind: Fe,
    /// The DAO's parameters and the proposal: the preimages of the bullas.
    pub dao: DaoParams,
    pub proposal: Proposal,
    /// Opening of the change coin that goes back to the DAO.
    pub change_public: Fe,
    pub change_value: u64,
    pub change_token_id: Fe,
    pub change_serial: Fe,
    pub change_coin_blind: Fe,
}

/// A proposal that the DAO state knows, with the votes cast on it.
#[derive(Clone, Debug)]
pub struct ProposalRecord {
    pub bulla: Fe,
    pub yes_commits: Vec<Fe>,
    pub all_commits: Vec<Fe>,
    pub vote_nullifiers: Vec<Fe>,
    pub executed: bool,
}

/// State of the DAO contract.
pub struct DaoState {
    /// The DAO bullas, in the order they were minted.
    pub dao_tree: MerkleTree,
    pub proposals: Vec<ProposalRecord>,
}

/// What a valid DAO call changes.
#[derive(Clone, Debug)]
pub enum DaoUpdate {
    /// Append a DAO bulla to the tree.
    Mint { dao_bulla: Fe },
    /// Record a new proposal.
    Propose { proposal_bulla: Fe },
    /// Add a vote to the proposal at `index`.
    Vote { index: usize, yes_commit: Fe, all_commit: Fe, nullifiers: Vec<Fe> },
    /// Mark the proposal at `index` executed.
    Exec { index: usize },
}

impl DaoState {
    pub open spec fn wf(&self) -> bool {
        self.dao_tree.wf()
    }

    pub fn new() -> (r: DaoState)
        ensures
            r.wf(),
            r.dao_tree@ == Seq::<Fe>::empty(),
            r.proposals@ == Seq::<ProposalRecord>::empty(),
    {
        DaoState { dao_tree: MerkleTree::new(), proposals: Vec::new() }
    }
}

/// Index of the first proposal with bulla `b`, or -1.
pub open spec fn proposal_index(ps: Seq<ProposalRecord>, b: Fe) -> int
    decreases ps.len(),
{
    if ps.len() == 0 {
        -1
    } else {
        let k = proposal_index(ps.drop_last(), b);
        if k >= 0 {
            k
        } else if ps.last().bulla == b {
            ps.len() - 1
        } else {
            -1
        }
    }
}

proof fn lemma_proposal_index_range(ps: Seq<ProposalRecord>, b: Fe)
    ensures
        -1 <= proposal_index(ps, b) < ps.len(),
        proposal_index(ps, b) >= 0 ==> ps[proposal_index(ps, b)].bulla == b,
    decreases ps.len(),
{
    if ps.len() > 0 {
        lemma_proposal_index_range(ps.drop_last(), b);
    }
}

fn find_proposal(ps: &Vec<ProposalRecord>, b: Fe) -> (r: Option<usize>)
    ensures
        match r {
            Some(k) => proposal_index(ps@, b) == k,
            None => proposal_index(ps@, b) == -1,
        },
{
    let mut i: usize = 0;
    while i < ps.len()
        invariant
            i <= ps.len(),
            proposal_index(ps@.take(i as int), b) == -1,
        decreases ps.len() - i,
    {
        assert(ps@.take(i + 1).drop_last() =~= ps@.take(i as int));
        if ps[i].bulla == b {
            proof {
                lemma_prefix_index(ps@, b, i as int + 1);
            }
            return Some(i);
        }
        i = i + 1;
    }
    assert(ps@.take(ps.len() as int) =~= ps@);
    None
}

/// Once a prefix finds the bulla, the whole sequence finds it at the same index.
proof fn lemma_prefix_index(ps: Seq<ProposalRecord>, b: Fe, n: int)
    requires
        0 <= n <= ps.len(),
        proposal_index(ps.take(n), b) >= 0,
    ensures
        proposal_index(ps, b) == proposal_index(ps.take(n), b),
    decreases ps.len() - n,
{
    if n < ps.len() {
        assert(ps.take(n + 1).drop_last() =~= ps.take(n));
        lemma_prefix_index(ps, b, n + 1);
    } else {
        assert(ps.take(n) =~= ps);
    }
}

/// Every coin was proved against a root that the money tree has had.
pub open spec fn gov_roots_known(tree: MerkleTree, inputs: Seq<GovInput>) -> bool {
    forall|i: int| 0 <= i < inputs.len() ==> tree.had_root(#[trigger] inputs[i].merkle_root)
}

pub open spec fn gov_commits(inputs: Seq<GovInput>) -> Seq<Fe> {
    inputs.map_values(|x: GovInput| x.value_commit)
}

pub open spec fn gov_nullifiers(inputs: Seq<GovInput>) -> Seq<Fe> {
    inputs.map_values(|x: GovInput| x.nullifier)
}

/// The commitments of `commits` sum to a commitment that opens to `value` under `blind`.
pub open spec fn sum_opens(commits: Seq<Fe>, value: u64, blind: Fe) -> bool {
    commit_sum_of(commits).is_some() && commit_sum_of(commits) == value_commit_of(value, blind)
}

/// The outcome of validating a proposal.
pub open spec fn propose_check(money_tree: MerkleTree, spent: Seq<Fe>, s: DaoState, c: DaoProposeCall) -> Result<
    (),
    Error,
> {
    if !gov_roots_known(money_tree, c.inputs@) {
        Err(Error::BadAuthenticationPath)
    } else if !all_fresh(spent, gov_nullifiers(c.inputs@)) {
        Err(Error::DoubleSpend)
    } else if !s.dao_tree.had_root(c.dao_merkle_root) {
        Err(Error::BadAuthenticationPath)
    } else if !sum_opens(gov_commits(c.inputs@), c.total_value, c.total_value_blind) {
        Err(Error::InsufficientBalance)
    } else if c.total_value < c.proposer_limit {
        Err(Error::BelowProposerLimit)
    } else {
        Ok(())
    }
}

/// The outcome of validating a vote: the index of the proposal voted on.
pub open spec fn vote_check(money_tree: MerkleTree, spent: Seq<Fe>, s: DaoState, c: DaoVoteCall) -> Result<
    usize,
    Error,
> {
    let k = proposal_index(s.proposals@, c.proposal_bulla);
    if k < 0 {
        Err(Error::UnknownProposal)
    } else if !gov_roots_known(money_tree, c.inputs@) {
        Err(Error::BadAuthenticationPath)
    } else if !all_fresh(s.proposals@[k].vote_nullifiers@, gov_nullifiers(c.inputs@)) || !all_fresh(
        spent,
        gov_nullifiers(c.inputs@),
    ) {
        Err(Error::DoubleSpend)
    } else if commit_sum_of(gov_commits(c.inputs@)) != Some(c.all_vote_commit) {
        Err(Error::InsufficientBalance)
    } else {
        Ok(k as usize)
    }
}

/// The quorum and approval-ratio rule: enough votes in all, and
/// `yes / all >= quot / base`, compared by cross-multiplication.
pub open spec fn thresholds_check(quorum: u64, quot: u64, base: u64, yes: u64, all: u64) -> Result<
    (),
    Error,
> {
    if all < quorum {
        Err(Error::QuorumNotMet)
    } else if (yes as int) * (base as int) < (all as int) * (quot as int) {
        Err(Error::RatioNotMet)
    } else {
        Ok(())
    }
}

/// The change coin that the treasury spend must send back to the DAO.
pub open spec fn change_note(c: DaoExecCall) -> Note {
    Note {
        value: c.change_value,
        token_id: c.change_token_id,
        serial: c.change_serial,
        spend_hook: exec_func_id(),
        user_data: c.proposal_bulla,
        coin_blind: c.change_coin_blind,
        value_blind: Fe::spec_zero(),
    }
}

/// The note of the payment that a proposal makes.
pub open spec fn payment_note(p: Proposal, value_blind: Fe) -> Note {
    Note {
        value: p.amount,
        token_id: p.token_id,
        serial: p.serial,
        spend_hook: Fe::spec_zero(),
        user_data: Fe::spec_zero(),
        coin_blind: p.blind,
        value_blind,
    }
}

/// The exec call opens the proposal's bulla, the transfer spends coins of
/// this DAO's treasury (locked to exec and to the DAO's bulla) to two outputs: the payment the proposal makes, then the change
/// coin locked to exec and to this proposal.
pub open spec fn spend_bound(t: Option<TransferCall>, c: DaoExecCall) -> bool {
    match t {
        Some(t) => {
            &&& proposal_bulla_of(c.proposal, dao_bulla_of(c.dao)) == c.proposal_bulla
            &&& forall|i: int|
                0 <= i < t.inputs@.len() ==> (#[trigger] t.inputs@[i]).spend_hook == exec_func_id()
                    && t.inputs@[i].user_data == dao_bulla_of(c.dao)
            &&& t.outputs@.len() == 2
            &&& t.outputs@[0].coin == coin_of(c.proposal.dest, payment_note(c.proposal, Fe::spec_zero()))
            &&& t.outputs@[1].coin == coin_of(c.change_public, change_note(c))
        },
        None => false,
    }
}

/// The outcome of validating an exec call whose transaction spends the
/// treasury with `transfer`: the index of the proposal executed.
pub open spec fn exec_check(s: DaoState, transfer: Option<TransferCall>, c: DaoExecCall) -> Result<
    usize,
    Error,
> {
    let k = proposal_index(s.proposals@, c.proposal_bulla);
    if k < 0 {
        Err(Error::UnknownProposal)
    } else if s.proposals@[k].executed {
        Err(Error::ProposalAlreadyExecuted)
    } else if !sum_opens(s.proposals@[k].yes_commits@, c.yes_votes_value, c.yes_votes_blind)
        || !sum_opens(s.proposals@[k].all_commits@, c.all_votes_value, c.all_votes_blind) {
        Err(Error::InsufficientBalance)
    } else if thresholds_check(
        c.dao.quorum,
        c.dao.approval_ratio_quot,
        c.dao.approval_ratio_base,
        c.yes_votes_value,
        c.all_votes_value,
    ) is Err {
        Err(
            thresholds_check(
                c.dao.quorum,
                c.dao.approval_ratio_quot,
                c.dao.approval_ratio_base,
                c.yes_votes_value,
                c.all_votes_value,
            )->Err_0,
        )
    } else if !spend_bound(transfer, c) {
        Err(Error::SpendHookMismatch)
    } else {
        Ok(k as usize)
    }
}

/// Checks the quorum and the approval ratio.
pub fn check_thresholds(quorum: u64, quot: u64, base: u64, yes: u64, all: u64) -> (r: Result<
    (),
    Error,
>)
    ensures
        r == thresholds_check(quorum, quot, base, yes, all),
{
    if all < quorum {
        return Err(Error::QuorumNotMet);
    }
    assert((yes as int) * (base as int) <= u64::MAX as int * u64::MAX as int) by (nonlinear_arith);
    assert((all as int) * (quot as int) <= u64::MAX as int * u64::MAX as int) by (nonlinear_arith);
    if (yes as u128) * (base as u128) < (all as u128) * (quot as u128) {
        Err(Error::RatioNotMet)
    } else {
        Ok(())
    }
}

fn gov_vec(inputs: &Vec<GovInput>, commits: bool) -> (r: Vec<Fe>)
    ensures
        r@ == (if commits {
            gov_commits(inputs@)
        } else {
            gov_nullifiers(inputs@)
        }),
{
    let mut out: Vec<Fe> = Vec::new();
    let mut i: usize = 0;
    while i < inputs.len()
        invariant
            i <= inputs.len(),
            out@ == (if commits {
                gov_commits(inputs@.take(i as int))
            } else {
                gov_nullifiers(inputs@.take(i as int))
            }),
        decreases inputs.len() - i,
    {
        if commits {
            out.push(inputs[i].value_commit);
        } else {
            out.push(inputs[i].nullifier);
        }
        i = i + 1;
        assert(out@ =~= (if commits {
            gov_commits(inputs@.take(i as int))
        } else {
            gov_nullifiers(inputs@.take(i as int))
        }));
    }
    assert(inputs@.take(inputs.len() as int) =~= inputs@);
    out
}

fn check_gov_roots(tree: &MerkleTree, inputs: &Vec<GovInput>) -> (r: bool)
    requires
        tree.wf(),
    ensures
        r == gov_roots_known(*tree, inputs@),
{
    let mut i: usize = 0;
    while i < inputs.len()
        invariant
            tree.wf(),
            i <= inputs.len(),
            forall|k: int| 0 <= k < i ==> tree.had_root(#[trigger] inputs@[k].merkle_root),
        decreases inputs.len() - i,
    {
        if !tree.contains_root(inputs[i].merkle_root) {
            return false;
        }
        i = i + 1;
    }
    true
}

fn check_sum_opens(commits: &Vec<Fe>, value: u64, blind: Fe) -> (r: bool)
    ensures
        r == sum_opens(commits@, value, blind),
{
    match commit_sum(commits) {
        Some(x) => value_commit(value, blind) == Some(x),
        None => false,
    }
}

/// Validates the minting of a DAO: its bulla is appended to the DAO tree.
pub fn validate_mint(c: &DaoMintCall) -> (r: Result<DaoUpdate, Error>)
    ensures
        r == Ok::<DaoUpdate, Error>(DaoUpdate::Mint { dao_bulla: c.dao_bulla }),
{
    Ok(DaoUpdate::Mint { dao_bulla: c.dao_bulla })
}

/// Validates a proposal against the money tree and the DAO state.
pub fn validate_propose(money_tree: &MerkleTree, spent: &Vec<Fe>, s: &DaoState, c: &DaoProposeCall) -> (r: Result<
    DaoUpdate,
    Error,
>)
    requires
        money_tree.wf(),
        s.wf(),
    ensures
        match propose_check(*money_tree, spent@, *s, *c) {
            Ok(_) => r == Ok::<DaoUpdate, Error>(
                DaoUpdate::Propose { proposal_bulla: c.proposal_bulla },
            ),
            Err(e) => r == Err::<DaoUpdate, Error>(e),
        },
{
    if !check_gov_roots(money_tree, &c.inputs) {
        return Err(Error::BadAuthenticationPath);
    }
    if !check_fresh(spent, &gov_vec(&c.inputs, false)) {
        return Err(Error::DoubleSpend);
    }
    if !s.dao_tree.contains_root(c.dao_merkle_root) {
        return Err(Error::BadAuthenticationPath);
    }
    if !check_sum_opens(&gov_vec(&c.inputs, true), c.total_value, c.total_value_blind) {
        return Err(Error::InsufficientBalance);
    }
    if c.total_value < c.proposer_limit {
        return Err(Error::BelowProposerLimit);
    }
    Ok(DaoUpdate::Propose { proposal_bulla: c.proposal_bulla })
}

/// Validates a vote against the money tree and the DAO state.
pub fn validate_vote(money_tree: &MerkleTree, spent: &Vec<Fe>, s: &DaoState, c: &DaoVoteCall) -> (r: Result<
    DaoUpdate,
    Error,
>)
    requires
        money_tree.wf(),
        s.wf(),
    ensures
        match vote_check(*money_tree, spent@, *s, *c) {
            Ok(k) => match r {
                Ok(DaoUpdate::Vote { index, yes_commit, all_commit, nullifiers }) => index == k
                    && yes_commit == c.yes_vote_commit && all_commit == c.all_vote_commit
                    && nullifiers@ == gov_nullifiers(c.inputs@),
                _ => false,
            },
            Err(e) => r == Err::<DaoUpdate, Error>(e),
        },
{
    let k = match find_proposal(&s.proposals, c.proposal_bulla) {
        Some(k) => k,
        None => {
            return Err(Error::UnknownProposal);
        },
    };
    proof {
        lemma_proposal_index_range(s.proposals@, c.proposal_bulla);
    }
    if !check_gov_roots(money_tree, &c.inputs) {
        return Err(Error::BadAuthenticationPath);
    }
    let nullifiers = gov_vec(&c.inputs, false);
    if !check_fresh(&s.proposals[k].vote_nullifiers, &nullifiers) || !check_fresh(spent, &nullifiers) {
        return Err(Error::DoubleSpend);
    }
    if commit_sum(&gov_vec(&c.inputs, true)) != Some(c.all_vote_commit) {
        return Err(Error::InsufficientBalance);
    }
    Ok(DaoUpdate::Vote {
        index: k,
        yes_commit: c.yes_vote_commit,
        all_commit: c.all_vote_commit,
        nullifiers,
    })
}

/// Whether every input of the transfer is locked to exec and to `dao_bulla`.
fn inputs_locked(t: &TransferCall, dao_bulla: Fe) -> (r: bool)
    ensures
        r == forall|i: int|
            0 <= i < t.inputs@.len() ==> (#[trigger] t.inputs@[i]).spend_hook == exec_func_id()
                && t.inputs@[i].user_data == dao_bulla,
{
    let hook = exec_func_id_exec();
    let mut i: usize = 0;
    while i < t.inputs.len()
        invariant
            i <= t.inputs.len(),
            hook == exec_func_id(),
            forall|j: int|
                0 <= j < i ==> (#[trigger] t.inputs@[j]).spend_hook == exec_func_id()
                    && t.inputs@[j].user_data == dao_bulla,
        decreases t.inputs.len() - i,
    {
        if t.inputs[i].spend_hook != hook || t.inputs[i].user_data != dao_bulla {
            assert(!(t.inputs@[i as int].spend_hook == exec_func_id() && t.inputs@[i as int].user_data
                == dao_bulla));
            return false;
        }
        i = i + 1;
    }
    true
}

fn check_spend_bound(t: Option<&TransferCall>, c: &DaoExecCall) -> (r: bool)
    ensures
        r == spend_bound(
            match t {
                Some(x) => Some(*x),
                None => None,
            },
            *c,
        ),
{
    match t {
        Some(t) => {
            let dao_bulla = c.dao.bulla();
            if c.proposal.bulla(dao_bulla) != c.proposal_bulla || t.outputs.len() != 2 {
                return false;
            }
            if !inputs_locked(t, dao_bulla) {
                return false;
            }
            let pay = Note {
                value: c.proposal.amount,
                token_id: c.proposal.token_id,
                serial: c.proposal.serial,
                spend_hook: Fe::zero(),
                user_data: Fe::zero(),
                coin_blind: c.proposal.blind,
                value_blind: Fe::zero(),
            };
            let change = Note {
                value: c.change_value,
                token_id: c.change_token_id,
                serial: c.change_serial,
                spend_hook: exec_func_id_exec(),
                user_data: c.proposal_bulla,
                coin_blind: c.change_coin_blind,
                value_blind: Fe::zero(),
            };
            t.outputs[0].coin == pay.coin(c.proposal.dest) && t.outputs[1].coin == change.coin(
                c.change_public,
            )
        },
        None => false,
    }
}

/// Validates the execution of a proposal whose transaction spends the
/// treasury with `transfer`.
pub fn validate_exec(s: &DaoState, transfer: Option<&TransferCall>, c: &DaoExecCall) -> (r: Result<
    DaoUpdate,
    Error,
>)
    requires
        s.wf(),
    ensures
        match exec_check(
            *s,
            match transfer {
                Some(x) => Some(*x),
                None => None,
            },
            *c,
        ) {
            Ok(k) => r == Ok::<DaoUpdate, Error>(DaoUpdate::Exec { index: k }),
            Err(e) => r == Err::<DaoUpdate, Error>(e),
        },
{
    let k = match find_proposal(&s.proposals, c.proposal_bulla) {
        Some(k) => k,
        None => {
            return Err(Error::UnknownProposal);
        },
    };
    proof {
        lemma_proposal_index_range(s.proposals@, c.proposal_bulla);
    }
    if s.proposals[k].executed {
        return Err(Error::ProposalAlreadyExecuted);
    }
    if !check_sum_opens(&s.proposals[k].yes_commits, c.yes_votes_value, c.yes_votes_blind)
        || !check_sum_opens(&s.proposals[k].all_commits, c.all_votes_value, c.all_votes_blind) {
        return Err(Error::InsufficientBalance);
    }
    match check_thresholds(
        c.dao.quorum,
        c.dao.approval_ratio_quot,
        c.dao.approval_ratio_base,
        c.yes_votes_value,
        c.all_votes_value,
    ) {
        Err(e) => {
            return Err(e);
        },
        Ok(_) => {},
    }
    if !check_spend_bound(transfer, c) {
        return Err(Error::SpendHookMismatch);
    }
    Ok(DaoUpdate::Exec { index: k })
}

/// The DAO state after an update.
pub open spec fn dao_applied(old: DaoState, u: DaoUpdate, new: DaoState) -> bool {
    match u {
        DaoUpdate::Mint { dao_bulla } => new.dao_tree@ == old.dao_tree@.push(dao_bulla)
            && new.proposals@ == old.proposals@,
        DaoUpdate::Propose { proposal_bulla } => new.dao_tree@ == old.dao_tree@
            && new.proposals@.len() == old.proposals@.len() + 1
            && new.proposals@.drop_last() == old.proposals@
            && new.proposals@.last().bulla == proposal_bulla
            && new.proposals@.last().yes_commits@.len() == 0
            && new.proposals@.last().all_commits@.len() == 0
            && new.proposals@.last().vote_nullifiers@.len() == 0
            && !new.proposals@.last().executed,
        DaoUpdate::Vote { index, yes_commit, all_commit, nullifiers } => new.dao_tree@
            == old.dao_tree@ && new.proposals@.len() == old.proposals@.len() && (forall|j: int|
            0 <= j < old.proposals@.len() && j != index ==> #[trigger] new.proposals@[j]
                == old.proposals@[j]) && (index < old.proposals@.len() ==> {
            let o = old.proposals@[index as int];
            let n = new.proposals@[index as int];
            &&& n.bulla == o.bulla
            &&& n.executed == o.executed
            &&& n.yes_commits@ == o.yes_commits@.push(yes_commit)
            &&& n.all_commits@ == o.all_commits@.push(all_commit)
            &&& n.vote_nullifiers@ == o.vote_nullifiers@ + nullifiers@
        }),
        DaoUpdate::Exec { index } => new.dao_tree@ == old.dao_tree@ && new.proposals@.len()
            == old.proposals@.len() && (forall|j: int|
            0 <= j < old.proposals@.len() && j != index ==> #[trigger] new.proposals@[j]
                == old.proposals@[j]) && (index < old.proposals@.len() ==> {
            let o = old.proposals@[index as int];
            let n = new.proposals@[index as int];
            &&& n.bulla == o.bulla
            &&& n.executed
            &&& n.yes_commits@ == o.yes_commits@
            &&& n.all_commits@ == o.all_commits@
            &&& n.vote_nullifiers@ == o.vote_nullifiers@
        }),
    }
}

fn extend(v: &mut Vec<Fe>, extra: &Vec<Fe>)
    ensures
        final(v)@ == old(v)@ + extra@,
{
    let mut i: usize = 0;
    while i < extra.len()
        invariant
            i <= extra.len(),
            v@ == old(v)@ + extra@.take(i as int),
        decreases extra.len() - i,
    {
        v.push(extra[i]);
        i = i + 1;
        assert(v@ =~= old(v)@ + extra@.take(i as int));
    }
    assert(extra@.take(extra.len() as int) =~= extra@);
}

impl DaoState {
    /// Applies an update.
    pub fn apply(&mut self, u: &DaoUpdate)
        requires
            old(self).wf(),
        ensures
            final(self).wf(),
            dao_applied(*old(self), *u, *final(self)),
    {
        match u {
            DaoUpdate::Mint { dao_bulla } => {
                self.dao_tree.append(*dao_bulla);
            },
            DaoUpdate::Propose { proposal_bulla } => {
                self.proposals.push(
                    ProposalRecord {
                        bulla: *proposal_bulla,
                        yes_commits: Vec::new(),
                        all_commits: Vec::new(),
                        vote_nullifiers: Vec::new(),
                        executed: false,
                    },
                );
                assert(self.proposals@.drop_last() =~= old(self).proposals@);
            },
            DaoUpdate::Vote { index, yes_commit, all_commit, nullifiers } => {
                if *index < self.proposals.len() {
                    let mut rec = self.proposals.remove(*index);
                    rec.yes_commits.push(*yes_commit);
                    rec.all_commits.push(*all_commit);
                    extend(&mut rec.vote_nullifiers, nullifiers);
                    self.proposals.insert(*index, rec);
                    assert forall|j: int|
                        0 <= j < old(self).proposals@.len() && j != *index implies #[trigger] self.proposals@[j]
                        == old(self).proposals@[j] by {
                    }
                }
            },
            DaoUpdate::Exec { index } => {
                if *index < self.proposals.len() {
                    let mut rec = self.proposals.remove(*index);
                    rec.executed = true;
                    self.proposals.insert(*index, rec);
                    assert forall|j: int|
                        0 <= j < old(self).proposals@.len() && j != *index implies #[trigger] self.proposals@[j]
                        == old(self).proposals@[j] by {
                    }
                }
            },
        }
    }
}

} // verus!
