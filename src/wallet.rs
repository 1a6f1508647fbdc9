//! Wallet-side bookkeeping: finding the coins sent to a key, balances, vote
//! tallies, and assembling the call data of a cashier's transfer.

use crate::crypto::{scalar_add, scalar_add_of, value_commit, value_commit_of, EncryptedPayload};
use crate::error::Error;
use crate::field::Fe;
use crate::money::{ClearInput, Output, TransferCall};
use crate::note::{coin_of, note_decrypt_of, Note};
use vstd::prelude::*;

verus! {

/// A coin that a wallet owns: its commitment, its note and its position in
/// the money tree.
#[derive(Clone, Copy, Debug, PartialEq, Eq, Structural)]
pub struct OwnCoin {
    pub coin: Fe,
    pub note: Note,
    pub leaf_position: usize,
}

/// The note of output `o`, if `secret` decrypts it and it is the opening of
/// the output's coin for `public`.
pub open spec fn owned_note(secret: Fe, public: Fe, o: Output) -> Option<Note> {
    match note_decrypt_of(secret, o.enc_note.ephem_public, o.enc_note.ciphertext@, o.enc_note.tag) {
        Ok(n) => if coin_of(public, n) == o.coin {
            Some(n)
        } else {
            None
        },
        Err(_) => None,
    }
}

/// The coins among `outputs` that belong to the key pair, in order, where the
/// first output has tree position `first`.
pub open spec fn received_of(secret: Fe, public: Fe, outputs: Seq<Output>, first: int) -> Seq<OwnCoin>
    decreases outputs.len(),
{
    if outputs.len() == 0 {
        Seq::empty()
    } else {
        let prev = received_of(secret, public, outputs.drop_last(), first);
        let o = outputs.last();
        match owned_note(secret, public, o) {
            Some(n) => prev.push(
                OwnCoin { coin: o.coin, note: n, leaf_position: (first + outputs.len() - 1) as usize },
            ),
            None => prev,
        }
    }
}

/// The coins among the outputs of an applied transfer that belong to the key
/// pair; the outputs were appended to the money tree from position `first`.
pub fn receive_coins(secret: Fe, public: Fe, outputs: &Vec<Output>, first: usize) -> (r: Vec<OwnCoin>)
    requires
        first + outputs.len() <= usize::MAX,
    ensures
        r@ == received_of(secret, public, outputs@, first as int),
{
    let mut r: Vec<OwnCoin> = Vec::new();
    let mut i: usize = 0;
    while i < outputs.len()
        invariant
            i <= outputs.len(),
            first + outputs.len() <= usize::MAX,
            r@ == received_of(secret, public, outputs@.take(i as int), first as int),
        decreases outputs.len() - i,
    {
        let o = &outputs[i];
        assert(outputs@.take(i + 1).drop_last() =~= outputs@.take(i as int));
        assert(outputs@.take(i + 1).last() == outputs@[i as int]);
        match Note::decrypt(secret, &o.enc_note) {
            Ok(n) => {
                if n.coin(public) == o.coin {
                    r.push(OwnCoin { coin: o.coin, note: n, leaf_position: first + i });
                }
            },
            Err(_) => {},
        }
        i = i + 1;
    }
    assert(outputs@.take(outputs.len() as int) =~= outputs@);
    r
}

/// Sum of the values of the unspent coins.
pub open spec fn unspent_sum(coins: Seq<(OwnCoin, bool)>) -> int
    decreases coins.len(),
{
    if coins.len() == 0 {
        0
    } else {
        unspent_sum(coins.drop_last()) + if coins.last().1 {
            0
        } else {
            coins.last().0.note.value as int
        }
    }
}

pub proof fn lemma_unspent_sum_nonneg(coins: Seq<(OwnCoin, bool)>)
    ensures
        unspent_sum(coins) >= 0,
    decreases coins.len(),
{
    if coins.len() > 0 {
        lemma_unspent_sum_nonneg(coins.drop_last());
    }
}

proof fn lemma_unspent_sum_prefix(coins: Seq<(OwnCoin, bool)>, i: int, j: int)
    requires
        0 <= i <= j <= coins.len(),
    ensures
        unspent_sum(coins.take(i)) <= unspent_sum(coins.take(j)),
    decreases j - i,
{
    if i < j {
        lemma_unspent_sum_prefix(coins, i, j - 1);
        assert(coins.take(j).drop_last() =~= coins.take(j - 1));
    }
}

/// The balance of the unspent coins (each pair holds the coin and whether it
/// is spent); `None` when it does not fit in 64 bits.
pub fn balance(coins: &Vec<(OwnCoin, bool)>) -> (r: Option<u64>)
    ensures
        r == (if unspent_sum(coins@) <= u64::MAX {
            Some(unspent_sum(coins@) as u64)
        } else {
            None::<u64>
        }),
{
    let mut total: u64 = 0;
    let mut i: usize = 0;
    while i < coins.len()
        invariant
            i <= coins.len(),
            total as int == unspent_sum(coins@.take(i as int)),
        decreases coins.len() - i,
    {
        assert(coins@.take(i + 1).drop_last() =~= coins@.take(i as int));
        let (c, spent) = coins[i];
        if !spent {
            if c.note.value > u64::MAX - total {
                proof {
                    lemma_unspent_sum_prefix(coins@, i + 1, coins@.len() as int);
                    assert(coins@.take(coins@.len() as int) =~= coins@);
                }
                return None;
            }
            total = total + c.note.value;
        }
        i = i + 1;
    }
    assert(coins@.take(coins.len() as int) =~= coins@);
    Some(total)
}

/// A decrypted vote.
#[derive(Clone, Copy, Debug, PartialEq, Eq, Structural)]
pub struct VoteNote {
    pub vote_option: bool,
    pub vote_value: u64,
    pub vote_value_blind: Fe,
}

/// Totals of the yes votes and of all votes, with the sums of their blinds,
/// which open the sums of the vote commitments.
#[derive(Clone, Copy, Debug, PartialEq, Eq, Structural)]
pub struct Tally {
    pub yes_value: u64,
    pub yes_blind: Fe,
    pub all_value: u64,
    pub all_blind: Fe,
}

/// Sum of the values of the votes, yes votes only if `yes_only`.
pub open spec fn votes_value(votes: Seq<VoteNote>, yes_only: bool) -> int
    decreases votes.len(),
{
    if votes.len() == 0 {
        0
    } else {
        votes_value(votes.drop_last(), yes_only) + if !yes_only || votes.last().vote_option {
            votes.last().vote_value as int
        } else {
            0
        }
    }
}

/// Sum of the blinds of the votes, yes votes only if `yes_only`.
pub open spec fn votes_blind(votes: Seq<VoteNote>, yes_only: bool) -> Fe
    decreases votes.len(),
{
    if votes.len() == 0 {
        Fe::spec_zero()
    } else if !yes_only || votes.last().vote_option {
        scalar_add_of(votes_blind(votes.drop_last(), yes_only), votes.last().vote_value_blind)
    } else {
        votes_blind(votes.drop_last(), yes_only)
    }
}

pub proof fn lemma_votes_value_nonneg(votes: Seq<VoteNote>, yes_only: bool)
    ensures
        0 <= votes_value(votes, yes_only),
        votes_value(votes, true) <= votes_value(votes, false),
    decreases votes.len(),
{
    if votes.len() > 0 {
        lemma_votes_value_nonneg(votes.drop_last(), yes_only);
    }
}

proof fn lemma_votes_value_prefix(votes: Seq<VoteNote>, yes_only: bool, i: int, j: int)
    requires
        0 <= i <= j <= votes.len(),
    ensures
        votes_value(votes.take(i), yes_only) <= votes_value(votes.take(j), yes_only),
    decreases j - i,
{
    if i < j {
        lemma_votes_value_prefix(votes, yes_only, i, j - 1);
        assert(votes.take(j).drop_last() =~= votes.take(j - 1));
    }
}

/// Tallies the votes; `None` when the total of all votes does not fit in 64 bits.
pub fn tally_votes(votes: &Vec<VoteNote>) -> (r: Option<Tally>)
    ensures
        r == (if votes_value(votes@, false) <= u64::MAX {
            Some(
                Tally {
                    yes_value: votes_value(votes@, true) as u64,
                    yes_blind: votes_blind(votes@, true),
                    all_value: votes_value(votes@, false) as u64,
                    all_blind: votes_blind(votes@, false),
                },
            )
        } else {
            None::<Tally>
        }),
{
    let mut yes_value: u64 = 0;
    let mut all_value: u64 = 0;
    let mut yes_blind = Fe::zero();
    let mut all_blind = Fe::zero();
    let mut i: usize = 0;
    while i < votes.len()
        invariant
            i <= votes.len(),
            yes_value as int == votes_value(votes@.take(i as int), true),
            all_value as int == votes_value(votes@.take(i as int), false),
            yes_value <= all_value,
            yes_blind == votes_blind(votes@.take(i as int), true),
            all_blind == votes_blind(votes@.take(i as int), false),
        decreases votes.len() - i,
    {
        assert(votes@.take(i + 1).drop_last() =~= votes@.take(i as int));
        let v = votes[i];
        if v.vote_value > u64::MAX - all_value {
            proof {
                lemma_votes_value_prefix(votes@, false, i + 1, votes@.len() as int);
                assert(votes@.take(votes@.len() as int) =~= votes@);
            }
            return None;
        }
        all_value = all_value + v.vote_value;
        all_blind = scalar_add(all_blind, v.vote_value_blind);
        if v.vote_option {
            yes_value = yes_value + v.vote_value;
            yes_blind = scalar_add(yes_blind, v.vote_value_blind);
        }
        i = i + 1;
    }
    assert(votes@.take(votes.len() as int) =~= votes@);
    Some(Tally { yes_value, yes_blind, all_value, all_blind })
}

/// What goes back to the DAO when a proposal spends `amount` out of a
/// treasury worth `total`; fails when the treasury holds less.
pub fn exec_change_value(total: u64, amount: u64) -> (r: Result<u64, Error>)
    ensures
        r == (if amount <= total {
            Ok::<u64, Error>((total - amount) as u64)
        } else {
            Err(Error::InsufficientBalance)
        }),
{
    if amount <= total {
        Ok(total - amount)
    } else {
        Err(Error::InsufficientBalance)
    }
}

/// The call data of a transfer that mints `note` from a clear input signed
/// by `signature_public` into one coin for `recipient`, the note encrypted to
/// `recipient` under `ephem_secret`.
pub fn clear_transfer(signature_public: Fe, recipient: Fe, note: Note, ephem_secret: Fe) -> (r: Option<
    TransferCall,
>)
    ensures
        match r {
            Some(c) => {
                &&& c.clear_inputs@ == seq![
                    ClearInput {
                        value: note.value,
                        token_id: note.token_id,
                        value_blind: note.value_blind,
                        signature_public,
                    },
                ]
                &&& c.inputs@.len() == 0
                &&& c.outputs@.len() == 1
                &&& Some(c.outputs@[0].value_commit) == value_commit_of(note.value, note.value_blind)
                &&& c.outputs@[0].coin == coin_of(recipient, note)
                &&& crate::crypto::encrypt_of(recipient, ephem_secret, crate::note::note_fields(note))
                    == Some(
                    (
                        c.outputs@[0].enc_note.ephem_public,
                        c.outputs@[0].enc_note.ciphertext@,
                        c.outputs@[0].enc_note.tag,
                    ),
                )
            },
            None => value_commit_of(note.value, note.value_blind) is None || crate::crypto::encrypt_of(
                recipient,
                ephem_secret,
                crate::note::note_fields(note),
            ) is None,
        },
{
    let vc = match value_commit(note.value, note.value_blind) {
        Some(x) => x,
        None => {
            return None;
        },
    };
    let enc: EncryptedPayload = match note.encrypt(recipient, ephem_secret) {
        Some(e) => e,
        None => {
            return None;
        },
    };
    let mut clear_inputs: Vec<ClearInput> = Vec::new();
    clear_inputs.push(
        ClearInput {
            value: note.value,
            token_id: note.token_id,
            value_blind: note.value_blind,
            signature_public,
        },
    );
    let mut outputs: Vec<Output> = Vec::new();
    outputs.push(Output { value_commit: vc, coin: note.coin(recipient), enc_note: enc });
    assert(clear_inputs@ =~= seq![
        ClearInput {
            value: note.value,
            token_id: note.token_id,
            value_blind: note.value_blind,
            signature_public,
        },
    ]);
    Some(TransferCall { clear_inputs, inputs: Vec::new(), outputs })
}

/// The mint authority that funds the DAO treasury and airdrops governance
/// tokens.
#[derive(Clone, Copy, Debug, PartialEq, Eq, Structural)]
pub struct Cashier {
    pub signature_public: Fe,
}

/// The note of a treasury coin: spendable only together with an exec call
/// of the DAO with bulla `dao_bulla`.
pub open spec fn treasury_note(token_id: Fe, supply: u64, dao_bulla: Fe, serial: Fe, coin_blind: Fe, value_blind: Fe) -> Note {
    Note {
        value: supply,
        token_id,
        serial,
        spend_hook: crate::dao::exec_func_id(),
        user_data: dao_bulla,
        coin_blind,
        value_blind,
    }
}

/// The note of an airdropped coin: freely spendable by its owner.
pub open spec fn airdrop_note(token_id: Fe, value: u64, serial: Fe, coin_blind: Fe, value_blind: Fe) -> Note {
    Note {
        value,
        token_id,
        serial,
        spend_hook: Fe::spec_zero(),
        user_data: Fe::spec_zero(),
        coin_blind,
        value_blind,
    }
}

impl Cashier {
    /// The transfer that funds the treasury of a DAO.
    pub fn mint(
        &self,
        token_id: Fe,
        supply: u64,
        dao_bulla: Fe,
        recipient: Fe,
        serial: Fe,
        coin_blind: Fe,
        value_blind: Fe,
        ephem_secret: Fe,
    ) -> (r: Option<TransferCall>)
        ensures
            match r {
                Some(c) => c.outputs@.len() == 1 && c.outputs@[0].coin == coin_of(
                    recipient,
                    treasury_note(token_id, supply, dao_bulla, serial, coin_blind, value_blind),
                ) && c.clear_inputs@.len() == 1 && c.clear_inputs@[0].value == supply
                    && c.clear_inputs@[0].signature_public == self.signature_public
                    && c.inputs@.len() == 0,
                None => value_commit_of(supply, value_blind) is None || crate::crypto::encrypt_of(
                    recipient,
                    ephem_secret,
                    crate::note::note_fields(
                        treasury_note(token_id, supply, dao_bulla, serial, coin_blind, value_blind),
                    ),
                ) is None,
            },
    {
        let note = Note {
            value: supply,
            token_id,
            serial,
            spend_hook: crate::dao::exec_func_id_exec(),
            user_data: dao_bulla,
            coin_blind,
            value_blind,
        };
        clear_transfer(self.signature_public, recipient, note, ephem_secret)
    }

    /// The transfer that airdrops tokens to a user.
    pub fn airdrop(
        &self,
        token_id: Fe,
        value: u64,
        recipient: Fe,
        serial: Fe,
        coin_blind: Fe,
        value_blind: Fe,
        ephem_secret: Fe,
    ) -> (r: Option<TransferCall>)
        ensures
            match r {
                Some(c) => c.outputs@.len() == 1 && c.outputs@[0].coin == coin_of(
                    recipient,
                    airdrop_note(token_id, value, serial, coin_blind, value_blind),
                ) && c.clear_inputs@.len() == 1 && c.clear_inputs@[0].value == value
                    && c.clear_inputs@[0].signature_public == self.signature_public
                    && c.inputs@.len() == 0,
                None => value_commit_of(value, value_blind) is None || crate::crypto::encrypt_of(
                    recipient,
                    ephem_secret,
                    crate::note::note_fields(
                        airdrop_note(token_id, value, serial, coin_blind, value_blind),
                    ),
                ) is None,
            },
    {
        let note = Note {
            value,
            token_id,
            serial,
            spend_hook: Fe::zero(),
            user_data: Fe::zero(),
            coin_blind,
            value_blind,
        };
        clear_transfer(self.signature_public, recipient, note, ephem_secret)
    }
}

/// A note belongs to the treasury of the DAO with bulla `dao_bulla` when it
/// is locked to the exec call and to that bulla.
pub open spec fn is_treasury_note(n: Note, dao_bulla: Fe) -> bool {
    n.spend_hook == crate::dao::exec_func_id() && n.user_data == dao_bulla
}

/// The coins, in order, that belong to the treasury of the DAO.
pub open spec fn treasury_of(coins: Seq<OwnCoin>, dao_bulla: Fe) -> Seq<OwnCoin>
    decreases coins.len(),
{
    if coins.len() == 0 {
        Seq::empty()
    } else if is_treasury_note(coins.last().note, dao_bulla) {
        treasury_of(coins.drop_last(), dao_bulla).push(coins.last())
    } else {
        treasury_of(coins.drop_last(), dao_bulla)
    }
}

/// Keeps the received coins that the DAO can spend: those locked to the exec
/// call and to the DAO's bulla.
pub fn treasury_coins(coins: &Vec<OwnCoin>, dao_bulla: Fe) -> (r: Vec<OwnCoin>)
    ensures
        r@ == treasury_of(coins@, dao_bulla),
{
    let hook = crate::dao::exec_func_id_exec();
    let mut r: Vec<OwnCoin> = Vec::new();
    let mut i: usize = 0;
    while i < coins.len()
        invariant
            i <= coins.len(),
            hook == crate::dao::exec_func_id(),
            r@ == treasury_of(coins@.take(i as int), dao_bulla),
        decreases coins.len() - i,
    {
        assert(coins@.take(i + 1).drop_last() =~= coins@.take(i as int));
        assert(coins@.take(i + 1).last() == coins@[i as int]);
        let c = coins[i];
        if c.note.spend_hook == hook && c.note.user_data == dao_bulla {
            r.push(c);
        }
        i = i + 1;
    }
    assert(coins@.take(coins.len() as int) =~= coins@);
    r
}

} // verus!
