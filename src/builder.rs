//! Wallet-side assembly of the public call data of DAO calls. The proofs
//! that go with them are made by the proof system from the same values.

use crate::crypto::{
    encrypt_of, scalar_add, scalar_add_of, scalar_sub, scalar_sub_of, value_commit,
    value_commit_of,
};
use crate::dao::{
    change_note, exec_func_id, exec_func_id_exec, payment_note, spend_bound, DaoExecCall, DaoParams,
    Proposal,
};
use crate::error::Error;
use crate::field::Fe;
use crate::merkle::{root_of, MerkleTree};
use crate::money::{Input, Output, TransferCall};
use crate::note::{coin_of, note_fields, nullifier, nullifier_of, Note};
use crate::wallet::{balance, lemma_unspent_sum_nonneg, lemma_votes_value_nonneg, tally_votes, unspent_sum, votes_blind, votes_value, OwnCoin, VoteNote};
use vstd::prelude::*;

verus! {

/// The notes of the unspent coins, in order.
pub open spec fn unspent_notes(coins: Seq<(OwnCoin, bool)>) -> Seq<Note>
    decreases coins.len(),
{
    if coins.len() == 0 {
        Seq::empty()
    } else if coins.last().1 {
        unspent_notes(coins.drop_last())
    } else {
        unspent_notes(coins.drop_last()).push(coins.last().0.note)
    }
}

/// The sum of `n` copies of the scalar `b`.
pub open spec fn blind_times(b: Fe, n: nat) -> Fe
    decreases n,
{
    if n == 0 {
        Fe::spec_zero()
    } else {
        scalar_add_of(blind_times(b, (n - 1) as nat), b)
    }
}

/// The inputs of a treasury spend: each unspent coin, spent by the DAO key,
/// with the value blind `blind`, proved against the current root.
pub open spec fn spend_inputs_ok(
    inputs: Seq<Input>,
    notes: Seq<Note>,
    secret: Fe,
    public: Fe,
    root: Fe,
    blind: Fe,
) -> bool {
    &&& inputs.len() == notes.len()
    &&& forall|i: int|
        0 <= i < inputs.len() ==> {
            &&& (#[trigger] inputs[i]).nullifier == nullifier_of(secret, notes[i].serial)
            &&& Some(inputs[i].value_commit) == value_commit_of(notes[i].value, blind)
            &&& inputs[i].merkle_root == root
            &&& inputs[i].spend_hook == notes[i].spend_hook
            &&& inputs[i].user_data == notes[i].user_data
            &&& inputs[i].signature_public == public
        }
}

/// The treasury cannot pay the proposal, or the votes do not add up in 64 bits.
pub open spec fn exec_unfunded(coins: Seq<(OwnCoin, bool)>, amount: u64, votes: Seq<VoteNote>) -> bool {
    unspent_sum(coins) > u64::MAX || unspent_sum(coins) < amount || votes_value(votes, false)
        > u64::MAX
}

/// The change note that an exec transaction sends back to the DAO.
pub open spec fn exec_change_note(
    own_coins: Seq<(OwnCoin, bool)>,
    proposal: Proposal,
    proposal_bulla: Fe,
    input_value_blind: Fe,
    pay_value_blind: Fe,
    dao_serial: Fe,
    dao_coin_blind: Fe,
) -> Note {
    Note {
        value: (unspent_sum(own_coins) - proposal.amount) as u64,
        token_id: proposal.token_id,
        serial: dao_serial,
        spend_hook: exec_func_id(),
        user_data: proposal_bulla,
        coin_blind: dao_coin_blind,
        value_blind: scalar_sub_of(
            blind_times(input_value_blind, unspent_notes(own_coins).len()),
            pay_value_blind,
        ),
    }
}

/// Every group operation that an exec transaction makes succeeds.
pub open spec fn exec_points_ok(
    own_coins: Seq<(OwnCoin, bool)>,
    dao_public: Fe,
    proposal: Proposal,
    proposal_bulla: Fe,
    input_value_blind: Fe,
    pay_value_blind: Fe,
    dao_serial: Fe,
    dao_coin_blind: Fe,
    ephem_secret: Fe,
) -> bool {
    let change = exec_change_note(
        own_coins,
        proposal,
        proposal_bulla,
        input_value_blind,
        pay_value_blind,
        dao_serial,
        dao_coin_blind,
    );
    &&& commits_known(own_coins, true, input_value_blind)
    &&& value_commit_of(proposal.amount, pay_value_blind) is Some
    &&& value_commit_of(change.value, change.value_blind) is Some
    &&& encrypt_of(proposal.dest, ephem_secret, note_fields(payment_note(proposal, pay_value_blind))) is Some
    &&& encrypt_of(dao_public, ephem_secret, note_fields(change)) is Some
}

/// Assembles the transaction that executes an approved proposal: a transfer
/// that spends every unspent treasury coin, pays the proposal and sends the
/// change back to the DAO locked to this proposal, and the exec call that
/// opens the vote tallies.
pub fn build_exec(
    dao_secret: Fe,
    dao_public: Fe,
    own_coins: &Vec<(OwnCoin, bool)>,
    money_tree: &MerkleTree,
    proposal: Proposal,
    proposal_bulla: Fe,
    params: DaoParams,
    votes: &Vec<VoteNote>,
    input_value_blind: Fe,
    pay_value_blind: Fe,
    dao_serial: Fe,
    dao_coin_blind: Fe,
    ephem_secret: Fe,
) -> (r: Result<(TransferCall, DaoExecCall, Vec<Witness>), Error>)
    requires
        money_tree.wf(),
    ensures
        (r == Err::<(TransferCall, DaoExecCall, Vec<Witness>), Error>(Error::InsufficientBalance))
            == exec_unfunded(own_coins@, proposal.amount, votes@),
        !exec_unfunded(own_coins@, proposal.amount, votes@) && positions_known(
            money_tree@.len() as int,
            own_coins@,
            true,
        ) && exec_points_ok(
            own_coins@,
            dao_public,
            proposal,
            proposal_bulla,
            input_value_blind,
            pay_value_blind,
            dao_serial,
            dao_coin_blind,
            ephem_secret,
        ) ==> r is Ok,
        match r {
            Ok((t, e, w)) => {
                let notes = unspent_notes(own_coins@);
                let change = (unspent_sum(own_coins@) - proposal.amount) as u64;
                let change_blind = scalar_sub_of(
                    blind_times(input_value_blind, notes.len()),
                    pay_value_blind,
                );
                &&& witnesses_ok(money_tree@, w@, chosen_positions(own_coins@, true))
                &&& t.outputs@[1].coin == coin_of(dao_public, change_note(e))
                &&& t.clear_inputs@.len() == 0
                &&& spend_inputs_ok(
                    t.inputs@,
                    notes,
                    dao_secret,
                    dao_public,
                    root_of(money_tree@),
                    input_value_blind,
                )
                &&& t.outputs@.len() == 2
                &&& t.outputs@[0].coin == coin_of(
                    proposal.dest,
                    payment_note(proposal, pay_value_blind),
                )
                &&& Some(t.outputs@[0].value_commit) == value_commit_of(
                    proposal.amount,
                    pay_value_blind,
                )
                &&& Some(t.outputs@[1].value_commit) == value_commit_of(change, change_blind)
                &&& (proposal_bulla == crate::dao::proposal_bulla_of(
                    proposal,
                    crate::dao::dao_bulla_of(params),
                ) && (forall|i: int|
                    0 <= i < notes.len() ==> crate::wallet::is_treasury_note(
                        #[trigger] notes[i],
                        crate::dao::dao_bulla_of(params),
                    )) ==> spend_bound(Some(t), e))
                &&& e.proposal_bulla == proposal_bulla
                &&& e.change_public == dao_public
                &&& e.change_value == change
                &&& e.change_token_id == proposal.token_id
                &&& e.change_serial == dao_serial
                &&& e.change_coin_blind == dao_coin_blind
                &&& e.dao == params
                &&& e.proposal == proposal
                &&& e.yes_votes_value == votes_value(votes@, true)
                &&& e.all_votes_value == votes_value(votes@, false)
                &&& e.yes_votes_blind == votes_blind(votes@, true)
                &&& e.all_votes_blind == votes_blind(votes@, false)
            },
            Err(e) => {
                ||| e == Error::InsufficientBalance
                ||| e == Error::StalePosition && !positions_known(money_tree@.len() as int, own_coins@, true)
                ||| e == Error::InvalidPoint && !exec_points_ok(
                    own_coins@,
                    dao_public,
                    proposal,
                    proposal_bulla,
                    input_value_blind,
                    pay_value_blind,
                    dao_serial,
                    dao_coin_blind,
                    ephem_secret,
                )
            },
        },
{
    let total = match balance(own_coins) {
        Some(t) => t,
        None => {
            return Err(Error::InsufficientBalance);
        },
    };
    if total < proposal.amount {
        return Err(Error::InsufficientBalance);
    }
    let change_value = total - proposal.amount;
    let tally = match tally_votes(votes) {
        Some(t) => t,
        None => {
            return Err(Error::InsufficientBalance);
        },
    };
    proof {
        lemma_unspent_sum_nonneg(own_coins@);
        lemma_votes_value_nonneg(votes@, true);
    }
    let w = match input_witnesses(money_tree, own_coins, true) {
        Ok(w) => w,
        Err(e) => {
            return Err(e);
        },
    };
    let root = money_tree.root(0).unwrap();
    assert(money_tree@.take(money_tree@.len() - 0) =~= money_tree@);
    // Spend every unspent coin.
    let mut inputs: Vec<Input> = Vec::new();
    let ghost mut notes: Seq<Note> = Seq::empty();
    let mut in_blinds = Fe::zero();
    let mut i: usize = 0;
    while i < own_coins.len()
        invariant
            !exec_unfunded(own_coins@, proposal.amount, votes@),
            i <= own_coins.len(),
            notes == unspent_notes(own_coins@.take(i as int)),
            in_blinds == blind_times(input_value_blind, notes.len()),
            inputs@.len() == notes.len(),
            forall|j: int|
                0 <= j < inputs@.len() ==> {
                    &&& (#[trigger] inputs@[j]).nullifier == nullifier_of(dao_secret, notes[j].serial)
                    &&& Some(inputs@[j].value_commit) == value_commit_of(notes[j].value, input_value_blind)
                    &&& inputs@[j].merkle_root == root
                    &&& inputs@[j].spend_hook == notes[j].spend_hook
                    &&& inputs@[j].user_data == notes[j].user_data
                    &&& inputs@[j].signature_public == dao_public
                },
        decreases own_coins.len() - i,
    {
        assert(own_coins@.take(i + 1).drop_last() =~= own_coins@.take(i as int));
        let (coin, spent) = own_coins[i];
        if !spent {
            let vc = match value_commit(coin.note.value, input_value_blind) {
                Some(x) => x,
                None => {
                    assert(is_chosen(own_coins@[i as int], true));
                    return Err(Error::InvalidPoint);
                },
            };
            inputs.push(
                Input {
                    value_commit: vc,
                    merkle_root: root,
                    nullifier: nullifier(dao_secret, coin.note.serial),
                    spend_hook: coin.note.spend_hook,
                    user_data: coin.note.user_data,
                    signature_public: dao_public,
                },
            );
            proof {
                notes = notes.push(coin.note);
            }
            in_blinds = scalar_add(in_blinds, input_value_blind);
        }
        i = i + 1;
    }
    assert(own_coins@.take(own_coins.len() as int) =~= own_coins@);
    let change_blind = scalar_sub(in_blinds, pay_value_blind);
    let pay = Note {
        value: proposal.amount,
        token_id: proposal.token_id,
        serial: proposal.serial,
        spend_hook: Fe::zero(),
        user_data: Fe::zero(),
        coin_blind: proposal.blind,
        value_blind: pay_value_blind,
    };
    let change = Note {
        value: change_value,
        token_id: proposal.token_id,
        serial: dao_serial,
        spend_hook: exec_func_id_exec(),
        user_data: proposal_bulla,
        coin_blind: dao_coin_blind,
        value_blind: change_blind,
    };
    let (pay_commit, change_commit) = match (
        value_commit(pay.value, pay_value_blind),
        value_commit(change_value, change_blind),
    ) {
        (Some(a), Some(b)) => (a, b),
        _ => {
            return Err(Error::InvalidPoint);
        },
    };
    let (pay_enc, change_enc) = match (
        pay.encrypt(proposal.dest, ephem_secret),
        change.encrypt(dao_public, ephem_secret),
    ) {
        (Some(a), Some(b)) => (a, b),
        _ => {
            return Err(Error::InvalidPoint);
        },
    };
    let mut outputs: Vec<Output> = Vec::new();
    outputs.push(Output { value_commit: pay_commit, coin: pay.coin(proposal.dest), enc_note: pay_enc });
    outputs.push(
        Output { value_commit: change_commit, coin: change.coin(dao_public), enc_note: change_enc },
    );
    let t = TransferCall { clear_inputs: Vec::new(), inputs, outputs };
    let e = DaoExecCall {
        proposal_bulla,
        yes_votes_value: tally.yes_value,
        yes_votes_blind: tally.yes_blind,
        all_votes_value: tally.all_value,
        all_votes_blind: tally.all_blind,
        dao: params,
        proposal,
        change_public: dao_public,
        change_value,
        change_token_id: proposal.token_id,
        change_serial: dao_serial,
        change_coin_blind: dao_coin_blind,
    };
    assert(coin_of(dao_public, change) == coin_of(dao_public, change_note(e)));
    assert(coin_of(proposal.dest, pay) == coin_of(proposal.dest, payment_note(proposal, Fe::spec_zero())));
    Ok((t, e, w))
}

/// The proposal as a sequence of elements.
pub open spec fn proposal_fields(p: Proposal) -> Seq<Fe> {
    seq![p.dest, crate::note::fe(p.amount), p.serial, p.token_id, p.blind]
}

/// The proposal that a sequence of elements holds, if it holds one.
pub open spec fn proposal_from_fields(s: Seq<Fe>) -> Option<Proposal> {
    if s.len() == 5 && s[1].l1 == 0 && s[1].l2 == 0 && s[1].l3 == 0 {
        Some(Proposal { dest: s[0], amount: s[1].l0, serial: s[2], token_id: s[3], blind: s[4] })
    } else {
        None
    }
}

/// The vote as a sequence of elements.
pub open spec fn vote_fields(v: VoteNote) -> Seq<Fe> {
    seq![
        crate::note::fe(if v.vote_option { 1 } else { 0 }),
        crate::note::fe(v.vote_value),
        v.vote_value_blind,
    ]
}

/// The vote that a sequence of elements holds, if it holds one.
pub open spec fn vote_from_fields(s: Seq<Fe>) -> Option<VoteNote> {
    if s.len() == 3 && s[0].l1 == 0 && s[0].l2 == 0 && s[0].l3 == 0 && s[0].l0 <= 1 && s[1].l1 == 0
        && s[1].l2 == 0 && s[1].l3 == 0 {
        Some(VoteNote { vote_option: s[0].l0 == 1, vote_value: s[1].l0, vote_value_blind: s[2] })
    } else {
        None
    }
}

/// Reads the proposal that a propose call carries, encrypted to the DAO key
/// `secret`, and the proposal's bulla.
pub fn read_proposal(secret: Fe, c: &crate::dao::DaoProposeCall) -> (r: Result<(Proposal, Fe), Error>)
    ensures
        match r {
            Ok((p, b)) => b == c.proposal_bulla && crate::crypto::decrypt_of(
                secret,
                c.enc_note.ephem_public,
                c.enc_note.ciphertext@,
                c.enc_note.tag,
            ) == Some(proposal_fields(p)),
            Err(e) => e == Error::DecryptionError && match crate::crypto::decrypt_of(
                secret,
                c.enc_note.ephem_public,
                c.enc_note.ciphertext@,
                c.enc_note.tag,
            ) {
                Some(f) => proposal_from_fields(f) is None,
                None => true,
            },
        },
{
    let f = match crate::crypto::decrypt_payload(secret, &c.enc_note) {
        Ok(f) => f,
        Err(_) => {
            return Err(Error::DecryptionError);
        },
    };
    if f.len() == 5 && f[1].l1 == 0 && f[1].l2 == 0 && f[1].l3 == 0 {
        let p = Proposal { dest: f[0], amount: f[1].l0, serial: f[2], token_id: f[3], blind: f[4] };
        assert(f@ =~= proposal_fields(p));
        Ok((p, c.proposal_bulla))
    } else {
        Err(Error::DecryptionError)
    }
}

/// Reads the vote that a vote call carries, encrypted to the DAO key `secret`.
pub fn read_vote(secret: Fe, c: &crate::dao::DaoVoteCall) -> (r: Result<VoteNote, Error>)
    ensures
        match r {
            Ok(v) => crate::crypto::decrypt_of(
                secret,
                c.enc_note.ephem_public,
                c.enc_note.ciphertext@,
                c.enc_note.tag,
            ) == Some(vote_fields(v)),
            Err(e) => e == Error::DecryptionError && match crate::crypto::decrypt_of(
                secret,
                c.enc_note.ephem_public,
                c.enc_note.ciphertext@,
                c.enc_note.tag,
            ) {
                Some(f) => vote_from_fields(f) is None,
                None => true,
            },
        },
{
    let f = match crate::crypto::decrypt_payload(secret, &c.enc_note) {
        Ok(f) => f,
        Err(_) => {
            return Err(Error::DecryptionError);
        },
    };
    if f.len() == 3 && f[0].l1 == 0 && f[0].l2 == 0 && f[0].l3 == 0 && f[0].l0 <= 1 && f[1].l1 == 0
        && f[1].l2 == 0 && f[1].l3 == 0 {
        let v = VoteNote { vote_option: f[0].l0 == 1, vote_value: f[1].l0, vote_value_blind: f[2] };
        assert(f@ =~= vote_fields(v));
        Ok(v)
    } else {
        Err(Error::DecryptionError)
    }
}

/// Governance inputs over the coins of `coins` (all of them, or the unspent
/// ones only), each with value blind `blind`, proved against `root`; a vote
/// also reveals each coin's nullifier under `secret`.
pub open spec fn gov_inputs_ok(
    inputs: Seq<crate::dao::GovInput>,
    notes: Seq<Note>,
    root: Fe,
    blind: Fe,
    secret: Fe,
    with_nullifiers: bool,
) -> bool {
    &&& inputs.len() == notes.len()
    &&& forall|i: int|
        0 <= i < inputs.len() ==> {
            &&& Some((#[trigger] inputs[i]).value_commit) == value_commit_of(notes[i].value, blind)
            &&& inputs[i].merkle_root == root
            &&& inputs[i].nullifier == if with_nullifiers {
                nullifier_of(secret, notes[i].serial)
            } else {
                Fe::spec_zero()
            }
        }
}

/// The notes of the coins, the spent ones too unless `unspent_only`.
pub open spec fn chosen_notes(coins: Seq<(OwnCoin, bool)>, unspent_only: bool) -> Seq<Note>
    decreases coins.len(),
{
    if coins.len() == 0 {
        Seq::empty()
    } else if unspent_only && coins.last().1 {
        chosen_notes(coins.drop_last(), unspent_only)
    } else {
        chosen_notes(coins.drop_last(), unspent_only).push(coins.last().0.note)
    }
}

/// Sum of the values of the notes.
pub open spec fn notes_value(notes: Seq<Note>) -> int
    decreases notes.len(),
{
    if notes.len() == 0 {
        0
    } else {
        notes_value(notes.drop_last()) + notes.last().value
    }
}

proof fn lemma_notes_value_step(coins: Seq<(OwnCoin, bool)>, unspent_only: bool, i: int)
    requires
        0 <= i < coins.len(),
    ensures
        notes_value(chosen_notes(coins.take(i + 1), unspent_only)) == notes_value(
            chosen_notes(coins.take(i), unspent_only),
        ) + if is_chosen(coins[i], unspent_only) {
            coins[i].0.note.value as int
        } else {
            0
        },
{
    let x = chosen_notes(coins.take(i), unspent_only);
    assert(coins.take(i + 1).drop_last() =~= coins.take(i));
    assert(coins.take(i + 1).last() == coins[i]);
    if is_chosen(coins[i], unspent_only) {
        assert(x.push(coins[i].0.note).drop_last() =~= x);
    }
}

proof fn lemma_notes_value_mono(coins: Seq<(OwnCoin, bool)>, unspent_only: bool, i: int)
    requires
        0 <= i <= coins.len(),
    ensures
        notes_value(chosen_notes(coins.take(i), unspent_only)) <= notes_value(
            chosen_notes(coins, unspent_only),
        ),
    decreases coins.len() - i,
{
    if i < coins.len() {
        lemma_notes_value_mono(coins, unspent_only, i + 1);
        lemma_notes_value_step(coins, unspent_only, i);
    } else {
        assert(coins.take(i) =~= coins);
    }
}

fn gov_inputs(
    coins: &Vec<(OwnCoin, bool)>,
    unspent_only: bool,
    root: Fe,
    blind: Fe,
    secret: Fe,
    with_nullifiers: bool,
) -> (r: Result<(Vec<crate::dao::GovInput>, u64, Fe), Error>)
    ensures
        match r {
            Ok((inputs, total, blinds)) => {
                let notes = chosen_notes(coins@, unspent_only);
                &&& gov_inputs_ok(inputs@, notes, root, blind, secret, with_nullifiers)
                &&& total == notes_value(notes)
                &&& blinds == blind_times(blind, notes.len())
            },
            Err(e) => (e == Error::InsufficientBalance && notes_value(chosen_notes(coins@, unspent_only))
                > u64::MAX) || (e == Error::InvalidPoint && !commits_known(coins@, unspent_only, blind)),
        },
        notes_value(chosen_notes(coins@, unspent_only)) <= u64::MAX && commits_known(
            coins@,
            unspent_only,
            blind,
        ) ==> r is Ok,
{
    let mut inputs: Vec<crate::dao::GovInput> = Vec::new();
    let ghost mut notes: Seq<Note> = Seq::empty();
    let mut total: u64 = 0;
    let mut blinds = Fe::zero();
    let mut i: usize = 0;
    while i < coins.len()
        invariant
            i <= coins.len(),
            notes == chosen_notes(coins@.take(i as int), unspent_only),
            gov_inputs_ok(inputs@, notes, root, blind, secret, with_nullifiers),
            total == notes_value(notes),
            blinds == blind_times(blind, notes.len()),
        decreases coins.len() - i,
    {
        assert(coins@.take(i + 1).drop_last() =~= coins@.take(i as int));
        let (coin, spent) = coins[i];
        if !(unspent_only && spent) {
            if coin.note.value > u64::MAX - total {
                proof {
                    lemma_notes_value_step(coins@, unspent_only, i as int);
                    lemma_notes_value_mono(coins@, unspent_only, i + 1);
                }
                return Err(Error::InsufficientBalance);
            }
            let vc = match value_commit(coin.note.value, blind) {
                Some(x) => x,
                None => {
                    assert(is_chosen(coins@[i as int], unspent_only));
                    return Err(Error::InvalidPoint);
                },
            };
            let n = if with_nullifiers {
                nullifier(secret, coin.note.serial)
            } else {
                Fe::zero()
            };
            inputs.push(crate::dao::GovInput { value_commit: vc, merkle_root: root, nullifier: n });
            proof {
                let prev = notes;
                notes = notes.push(coin.note);
                assert(notes.drop_last() =~= prev);
            }
            total = total + coin.note.value;
            blinds = scalar_add(blinds, blind);
        }
        i = i + 1;
    }
    assert(coins@.take(coins.len() as int) =~= coins@);
    Ok((inputs, total, blinds))
}

/// Assembles a proposal to the DAO with parameters `params`, backed by the
/// proposer's unspent governance coins, with the witnesses the proof needs:
/// each coin's path in the money tree and the DAO's path at
/// `dao_leaf_position` in the DAO tree. The proposal is encrypted to the DAO.
pub fn build_propose(
    money_tree: &MerkleTree,
    dao_tree: &MerkleTree,
    coins: &Vec<(OwnCoin, bool)>,
    proposer_secret: Fe,
    params: DaoParams,
    proposal: Proposal,
    dao_leaf_position: usize,
    value_blind: Fe,
    ephem_secret: Fe,
) -> (r: Result<(crate::dao::DaoProposeCall, Vec<Witness>, Witness), Error>)
    requires
        money_tree.wf(),
        dao_tree.wf(),
    ensures
        match r {
            Ok((c, w, dw)) => {
                let notes = chosen_notes(coins@, true);
                &&& gov_inputs_ok(c.inputs@, notes, root_of(money_tree@), value_blind, proposer_secret, true)
                &&& witnesses_ok(money_tree@, w@, chosen_positions(coins@, true))
                &&& dw.leaf_position == dao_leaf_position
                &&& dw.path@ == crate::merkle::path_of(dao_tree@, dao_leaf_position as int)
                &&& c.total_value == notes_value(notes)
                &&& c.total_value_blind == blind_times(value_blind, notes.len())
                &&& c.dao_merkle_root == root_of(dao_tree@)
                &&& c.proposer_limit == params.proposer_limit
                &&& c.proposal_bulla == crate::dao::proposal_bulla_of(
                    proposal,
                    crate::dao::dao_bulla_of(params),
                )
                &&& encrypt_of(params.public_key, ephem_secret, proposal_fields(proposal)) == Some(
                    (c.enc_note.ephem_public, c.enc_note.ciphertext@, c.enc_note.tag),
                )
            },
            Err(e) => {
                ||| e == Error::StalePosition && (!positions_known(money_tree@.len() as int, coins@, true)
                    || dao_leaf_position >= dao_tree@.len())
                ||| e == Error::InsufficientBalance && notes_value(chosen_notes(coins@, true)) > u64::MAX
                ||| e == Error::InvalidPoint && (!commits_known(coins@, true, value_blind) || encrypt_of(
                    params.public_key,
                    ephem_secret,
                    proposal_fields(proposal),
                ) is None)
            },
        },
        positions_known(money_tree@.len() as int, coins@, true) && dao_leaf_position < dao_tree@.len()
            && notes_value(chosen_notes(coins@, true)) <= u64::MAX && commits_known(coins@, true, value_blind)
            && encrypt_of(params.public_key, ephem_secret, proposal_fields(proposal)) is Some ==> r is Ok,
{
    let w = match input_witnesses(money_tree, coins, true) {
        Ok(w) => w,
        Err(e) => {
            return Err(e);
        },
    };
    let dw = match path_at_current_root(dao_tree, dao_leaf_position) {
        Ok(x) => x,
        Err(e) => {
            return Err(e);
        },
    };
    let root = money_tree.root(0).unwrap();
    let dao_root = dao_tree.root(0).unwrap();
    assert(money_tree@.take(money_tree@.len() - 0) =~= money_tree@);
    assert(dao_tree@.take(dao_tree@.len() - 0) =~= dao_tree@);
    let (inputs, total, blinds) = match gov_inputs(coins, true, root, value_blind, proposer_secret, true) {
        Ok(x) => x,
        Err(e) => {
            return Err(e);
        },
    };
    let mut pf: Vec<Fe> = Vec::new();
    pf.push(proposal.dest);
    pf.push(Fe::from_u64(proposal.amount));
    pf.push(proposal.serial);
    pf.push(proposal.token_id);
    pf.push(proposal.blind);
    assert(pf@ =~= proposal_fields(proposal));
    let enc_note = match crate::crypto::encrypt_payload(params.public_key, ephem_secret, &pf) {
        Some(e) => e,
        None => {
            return Err(Error::InvalidPoint);
        },
    };
    let c = crate::dao::DaoProposeCall {
        dao_merkle_root: dao_root,
        inputs,
        total_value: total,
        total_value_blind: blinds,
        proposer_limit: params.proposer_limit,
        proposal_bulla: proposal.bulla(params.bulla()),
        enc_note,
    };
    Ok((c, w, dw))
}

/// The vote that all the coins, worth `total` under the blind sum `blinds`, cast.
pub open spec fn vote_note_of(vote_option: bool, total: u64, blinds: Fe) -> VoteNote {
    VoteNote { vote_option, vote_value: total, vote_value_blind: blinds }
}

/// Assembles a vote on the proposal with bulla `proposal_bulla`, weighted by
/// all the voter's governance coins, with each coin's witness in the money
/// tree; the vote is encrypted to the DAO key `dao_public`.
pub fn build_vote(
    money_tree: &MerkleTree,
    coins: &Vec<(OwnCoin, bool)>,
    voter_secret: Fe,
    vote_option: bool,
    proposal_bulla: Fe,
    dao_public: Fe,
    value_blind: Fe,
    ephem_secret: Fe,
) -> (r: Result<(crate::dao::DaoVoteCall, Vec<Witness>), Error>)
    requires
        money_tree.wf(),
    ensures
        match r {
            Ok((c, w)) => {
                let notes = chosen_notes(coins@, false);
                let total = notes_value(notes) as u64;
                let blinds = blind_times(value_blind, notes.len());
                &&& gov_inputs_ok(c.inputs@, notes, root_of(money_tree@), value_blind, voter_secret, true)
                &&& witnesses_ok(money_tree@, w@, chosen_positions(coins@, false))
                &&& c.proposal_bulla == proposal_bulla
                &&& Some(c.all_vote_commit) == value_commit_of(total, blinds)
                &&& Some(c.yes_vote_commit) == value_commit_of(if vote_option { total } else { 0 }, blinds)
                &&& encrypt_of(dao_public, ephem_secret, vote_fields(vote_note_of(vote_option, total, blinds)))
                    == Some((c.enc_note.ephem_public, c.enc_note.ciphertext@, c.enc_note.tag))
            },
            Err(e) => {
                ||| e == Error::StalePosition && !positions_known(money_tree@.len() as int, coins@, false)
                ||| e == Error::InsufficientBalance && notes_value(chosen_notes(coins@, false)) > u64::MAX
                ||| e == Error::InvalidPoint && !vote_points_ok(coins@, vote_option, dao_public, value_blind, ephem_secret)
            },
        },
        positions_known(money_tree@.len() as int, coins@, false) && notes_value(chosen_notes(coins@, false))
            <= u64::MAX && vote_points_ok(coins@, vote_option, dao_public, value_blind, ephem_secret) ==> r is Ok,
{
    let w = match input_witnesses(money_tree, coins, false) {
        Ok(w) => w,
        Err(e) => {
            return Err(e);
        },
    };
    let root = money_tree.root(0).unwrap();
    assert(money_tree@.take(money_tree@.len() - 0) =~= money_tree@);
    let (inputs, total, blinds) = match gov_inputs(coins, false, root, value_blind, voter_secret, true) {
        Ok(x) => x,
        Err(e) => {
            return Err(e);
        },
    };
    let (all, yes) = match (
        value_commit(total, blinds),
        value_commit(if vote_option { total } else { 0 }, blinds),
    ) {
        (Some(a), Some(y)) => (a, y),
        _ => {
            return Err(Error::InvalidPoint);
        },
    };
    let v = VoteNote { vote_option, vote_value: total, vote_value_blind: blinds };
    let mut vf: Vec<Fe> = Vec::new();
    vf.push(Fe::from_u64(if vote_option { 1 } else { 0 }));
    vf.push(Fe::from_u64(total));
    vf.push(blinds);
    assert(vf@ =~= vote_fields(v));
    let enc_note = match crate::crypto::encrypt_payload(dao_public, ephem_secret, &vf) {
        Some(e) => e,
        None => {
            return Err(Error::InvalidPoint);
        },
    };
    let c = crate::dao::DaoVoteCall {
        proposal_bulla,
        inputs,
        yes_vote_commit: yes,
        all_vote_commit: all,
        enc_note,
    };
    Ok((c, w))
}

/// Every group operation that a vote over all of `coins` makes succeeds.
pub open spec fn vote_points_ok(
    coins: Seq<(OwnCoin, bool)>,
    vote_option: bool,
    dao_public: Fe,
    value_blind: Fe,
    ephem_secret: Fe,
) -> bool {
    let notes = chosen_notes(coins, false);
    let total = notes_value(notes) as u64;
    let blinds = blind_times(value_blind, notes.len());
    &&& commits_known(coins, false, value_blind)
    &&& value_commit_of(total, blinds) is Some
    &&& value_commit_of(if vote_option { total } else { 0 }, blinds) is Some
    &&& encrypt_of(dao_public, ephem_secret, vote_fields(vote_note_of(vote_option, total, blinds))) is Some
}

/// The call that mints a DAO with parameters `params`.
pub fn build_mint(params: DaoParams) -> (r: crate::dao::DaoMintCall)
    ensures
        r.dao_bulla == crate::dao::dao_bulla_of(params),
{
    crate::dao::DaoMintCall { dao_bulla: params.bulla() }
}

/// What a prover needs for one input: the leaf's position and its
/// authentication path at the tree's current root.
#[derive(Clone, Debug)]
pub struct Witness {
    pub leaf_position: usize,
    pub path: Vec<Fe>,
}

/// The witness of the leaf at `pos` at the tree's current root; fails with
/// `StalePosition` when the tree has no leaf there.
pub fn path_at_current_root(tree: &MerkleTree, pos: usize) -> (r: Result<Witness, Error>)
    requires
        tree.wf(),
    ensures
        match r {
            Ok(w) => pos < tree@.len() && w.leaf_position == pos && w.path@
                == crate::merkle::path_of(tree@, pos as int),
            Err(e) => e == Error::StalePosition && pos >= tree@.len(),
        },
{
    let root = tree.root(0).unwrap();
    assert(tree@.take(tree@.len() - 0) =~= tree@);
    assert(tree.had_root(root));
    proof {
        assert forall|k: int| #[trigger] tree.is_latest_checkpoint(k, root) implies k == tree@.len() by {
            if k < tree@.len() {
                assert(root_of(tree@.take(tree@.len() as int)) != root);
            }
        }
    }
    match tree.authentication_path(pos, root) {
        Ok(path) => {
            assert(tree@.take(tree@.len() as int) =~= tree@);
            Ok(Witness { leaf_position: pos, path })
        },
        Err(_) => Err(Error::StalePosition),
    }
}

/// The position of an owned coin and its authentication path at the tree's
/// current root, which the proof of its spending needs.
pub fn coin_path(tree: &MerkleTree, coin: &OwnCoin) -> (r: Result<Witness, Error>)
    requires
        tree.wf(),
    ensures
        match r {
            Ok(w) => coin.leaf_position < tree@.len() && w.leaf_position == coin.leaf_position
                && w.path@ == crate::merkle::path_of(tree@, coin.leaf_position as int),
            Err(e) => e == Error::StalePosition && coin.leaf_position >= tree@.len(),
        },
{
    path_at_current_root(tree, coin.leaf_position)
}

/// Whether a coin is used: every coin, or the unspent ones only.
pub open spec fn is_chosen(c: (OwnCoin, bool), unspent_only: bool) -> bool {
    !(unspent_only && c.1)
}

/// The positions of the coins used, in order.
pub open spec fn chosen_positions(coins: Seq<(OwnCoin, bool)>, unspent_only: bool) -> Seq<usize>
    decreases coins.len(),
{
    if coins.len() == 0 {
        Seq::empty()
    } else if !is_chosen(coins.last(), unspent_only) {
        chosen_positions(coins.drop_last(), unspent_only)
    } else {
        chosen_positions(coins.drop_last(), unspent_only).push(coins.last().0.leaf_position)
    }
}

/// Every coin used has a leaf in a tree of `tree_len` leaves.
pub open spec fn positions_known(tree_len: int, coins: Seq<(OwnCoin, bool)>, unspent_only: bool) -> bool {
    forall|i: int|
        0 <= i < coins.len() && is_chosen(#[trigger] coins[i], unspent_only) ==> coins[i].0.leaf_position
            < tree_len
}

/// Every coin used has a value commitment under `blind`.
pub open spec fn commits_known(coins: Seq<(OwnCoin, bool)>, unspent_only: bool, blind: Fe) -> bool {
    forall|i: int|
        0 <= i < coins.len() && is_chosen(#[trigger] coins[i], unspent_only) ==> value_commit_of(
            coins[i].0.note.value,
            blind,
        ) is Some
}

/// `w` are the witnesses, at the current root of `tree`, of the positions `ps`.
pub open spec fn witnesses_ok(tree: Seq<Fe>, w: Seq<Witness>, ps: Seq<usize>) -> bool {
    &&& w.len() == ps.len()
    &&& forall|i: int|
        0 <= i < w.len() ==> (#[trigger] w[i]).leaf_position == ps[i] && w[i].path@ == crate::merkle::path_of(
            tree,
            ps[i] as int,
        )
}

/// The witnesses of the coins used.
pub fn input_witnesses(tree: &MerkleTree, coins: &Vec<(OwnCoin, bool)>, unspent_only: bool) -> (r:
    Result<Vec<Witness>, Error>)
    requires
        tree.wf(),
    ensures
        match r {
            Ok(w) => positions_known(tree@.len() as int, coins@, unspent_only) && witnesses_ok(
                tree@,
                w@,
                chosen_positions(coins@, unspent_only),
            ),
            Err(e) => e == Error::StalePosition && !positions_known(
                tree@.len() as int,
                coins@,
                unspent_only,
            ),
        },
{
    let mut w: Vec<Witness> = Vec::new();
    let mut i: usize = 0;
    while i < coins.len()
        invariant
            tree.wf(),
            i <= coins.len(),
            forall|j: int|
                0 <= j < i && is_chosen(#[trigger] coins@[j], unspent_only) ==> coins@[j].0.leaf_position
                    < tree@.len(),
            witnesses_ok(tree@, w@, chosen_positions(coins@.take(i as int), unspent_only)),
        decreases coins.len() - i,
    {
        assert(coins@.take(i + 1).drop_last() =~= coins@.take(i as int));
        assert(coins@.take(i + 1).last() == coins@[i as int]);
        let (coin, spent) = coins[i];
        if !(unspent_only && spent) {
            match coin_path(tree, &coin) {
                Ok(x) => {
                    w.push(x);
                },
                Err(e) => {
                    assert(is_chosen(coins@[i as int], unspent_only));
                    return Err(e);
                },
            }
        }
        i = i + 1;
    }
    assert(coins@.take(coins.len() as int) =~= coins@);
    Ok(w)
}

} // verus!
