use daod::builder::{build_exec, build_mint, build_propose, build_vote, coin_path, read_proposal, read_vote};
use daod::crypto::{
    commit_add, commit_sum, decrypt_payload, encrypt_payload, opens_to, public_key, value_commit,
    DecryptionError, EncryptedPayload,
};
use daod::dao::{
    check_thresholds, exec_func_id_exec, validate_exec, DaoExecCall, DaoMintCall, DaoParams,
    DaoProposeCall, DaoState, DaoVoteCall, GovInput, Proposal,
};
use daod::error::Error;
use daod::field::{encode_fields, Fe};
use daod::ledger::{
    dao_contract_id_exec, money_contract_id_exec, CallData, ContractState, FuncCall,
    StateRegistry, Transaction,
};
use daod::merkle::{root_from_path, verify_path, MerkleTree, TreeError, DEPTH};
use daod::money::{Input, MoneyState, Output, TransferCall};
use daod::note::{nullifier, Note};
use daod::ledger::output_positions;
use daod::wallet::{treasury_coins, 
    balance, exec_change_value, receive_coins, tally_votes, Cashier, OwnCoin, VoteNote,
};

fn f(v: u64) -> Fe {
    Fe::from_u64(v)
}

fn cashier_secret() -> Fe {
    f(1001)
}

fn new_ledger() -> (StateRegistry, Cashier) {
    let cashier_pub = public_key(cashier_secret()).unwrap();
    let faucet_pub = public_key(f(1002)).unwrap();
    let mut reg = StateRegistry::new();
    reg.register(money_contract_id_exec(), ContractState::Money(MoneyState::new(cashier_pub, faucet_pub)))
        .unwrap();
    reg.register(dao_contract_id_exec(), ContractState::Dao(DaoState::new())).unwrap();
    (reg, Cashier { signature_public: cashier_pub })
}

fn tx_of(calls: Vec<CallData>) -> Transaction {
    Transaction {
        func_calls: calls.into_iter().map(|c| FuncCall { call_data: c, proof: vec![] }).collect(),
        signatures: vec![],
    }
}

fn airdrop_note(value: u64, serial: u64, blind: u64) -> Note {
    Note {
        value,
        token_id: f(77),
        serial: f(serial),
        spend_hook: Fe::zero(),
        user_data: Fe::zero(),
        coin_blind: f(serial + 1000),
        value_blind: f(blind),
    }
}

fn money_root(reg: &StateRegistry) -> Fe {
    reg.money.as_ref().unwrap().tree.root(0).unwrap()
}

fn payload(to: Fe) -> EncryptedPayload {
    encrypt_payload(to, f(4242), &vec![f(1), f(2)]).unwrap()
}

/// A transfer spending the coin of `note`, owned by `secret`, to one output.
fn spend(reg: &StateRegistry, secret: Fe, note: &Note, out_value: u64, out_blind: u64, to: Fe) -> TransferCall {
    let out_note = airdrop_note(out_value, note.serial.l0 + 500, out_blind);
    TransferCall {
        clear_inputs: vec![],
        inputs: vec![Input {
            value_commit: value_commit(note.value, note.value_blind).unwrap(),
            merkle_root: money_root(reg),
            nullifier: nullifier(secret, note.serial),
            spend_hook: note.spend_hook,
            user_data: note.user_data,
            signature_public: public_key(secret).unwrap(),
        }],
        outputs: vec![Output {
            value_commit: value_commit(out_value, f(out_blind)).unwrap(),
            coin: out_note.coin(to),
            enc_note: out_note.encrypt(to, f(99)).unwrap(),
        }],
    }
}

fn airdropped(reg: &mut StateRegistry, cashier: &Cashier, secret: Fe, value: u64, serial: u64, blind: u64) -> Note {
    let n = airdrop_note(value, serial, blind);
    let public = public_key(secret).unwrap();
    let t = cashier
        .airdrop(n.token_id, n.value, public, n.serial, n.coin_blind, n.value_blind, f(31))
        .unwrap();
    assert_eq!(reg.validate(&tx_of(vec![CallData::Transfer(t)]), true, true), Ok(()));
    n
}

#[test]
fn tree_paths_authenticate_leaves_at_their_roots() {
    let mut t = MerkleTree::new();
    let empty_root = t.root(0).unwrap();
    assert_eq!(t.append(f(10)), 0);
    assert_eq!(t.append(f(11)), 1);
    let r2 = t.root(0).unwrap();
    assert_eq!(t.append(f(12)), 2);
    let r3 = t.root(0).unwrap();
    assert_ne!(r2, r3);
    assert_ne!(empty_root, r2);
    assert_eq!(t.root(1), Some(r2));
    assert_eq!(t.root(3), Some(empty_root));
    assert_eq!(t.root(4), None);
    for pos in 0..3usize {
        let path = t.authentication_path(pos, r3).unwrap();
        assert_eq!(path.len(), DEPTH as usize);
        assert!(verify_path(f(10 + pos as u64), pos as u64, &path, r3));
        assert!(!verify_path(f(10 + pos as u64), pos as u64, &path, r2));
        assert!(!verify_path(f(99), pos as u64, &path, r3));
    }
    let old = t.authentication_path(1, r2).unwrap();
    assert_eq!(root_from_path(f(11), 1, &old), r2);
    assert!(!verify_path(f(11), 1, &old, r3));
}

#[test]
fn tree_path_errors() {
    let mut t = MerkleTree::new();
    t.append(f(5));
    let r1 = t.root(0).unwrap();
    t.append(f(6));
    assert_eq!(t.authentication_path(1, r1), Err(TreeError::StalePosition));
    assert_eq!(t.authentication_path(0, f(123456)), Err(TreeError::UnknownRoot));
    assert!(t.contains_root(r1));
    assert!(!t.contains_root(f(123456)));
    assert_eq!(t.current_position(), Some(1));
    assert_eq!(t.leaf(1), Some(f(6)));
    assert_eq!(t.leaf(2), None);
    assert!(!verify_path(f(5), 0, &vec![], r1));
}

#[test]
fn encoding_is_little_endian() {
    let b = encode_fields(&vec![f(0x0102)]);
    assert_eq!(b.len(), 32);
    assert_eq!(b[0], 2);
    assert_eq!(b[1], 1);
    assert!(b[2..].iter().all(|x| *x == 0));
}

#[test]
fn value_commitments_add_up() {
    let a = value_commit(3, f(1)).unwrap();
    let b = value_commit(2, f(2)).unwrap();
    let sum = commit_add(a, b).unwrap();
    assert_eq!(sum, value_commit(5, f(3)).unwrap());
    assert_eq!(commit_sum(&vec![a, b]), Some(sum));
    assert_eq!(commit_sum(&vec![]), Some(Fe::zero()));
    assert!(opens_to(sum, 5, f(3)));
    assert!(!opens_to(sum, 4, f(3)));
    assert_ne!(a, b);
    assert_ne!(value_commit(3, f(1)), value_commit(3, f(2)));
}

#[test]
fn note_round_trip_and_wrong_key() {
    let secret = f(555);
    let public = public_key(secret).unwrap();
    let note = airdrop_note(1234, 8, 9);
    let enc = note.encrypt(public, f(777)).unwrap();
    assert_ne!(enc.ciphertext, note.to_fields());
    assert_eq!(Note::decrypt(secret, &enc), Ok(note));
    assert_eq!(Note::decrypt(f(556), &enc), Err(DecryptionError::DecryptionError));
    let p = encrypt_payload(public, f(778), &vec![f(5), f(6), f(7)]).unwrap();
    assert_eq!(decrypt_payload(secret, &p), Ok(vec![f(5), f(6), f(7)]));
    assert_eq!(Note::from_fields(&vec![f(1)]), None);
}

#[test]
fn registry_errors() {
    let (mut reg, _) = new_ledger();
    assert_eq!(
        reg.register(dao_contract_id_exec(), ContractState::Dao(DaoState::new())),
        Err(Error::DuplicateContract)
    );
    assert_eq!(
        reg.register(dao_contract_id_exec(), ContractState::Money(MoneyState::new(f(1), f(2)))),
        Err(Error::TypeMismatch)
    );
    assert_eq!(reg.register(f(9), ContractState::Dao(DaoState::new())), Err(Error::UnknownContract));
    assert!(reg.lookup_money(money_contract_id_exec()).is_ok());
    assert!(reg.lookup_dao(dao_contract_id_exec()).is_ok());
    assert_eq!(reg.lookup_money(dao_contract_id_exec()).err(), Some(Error::TypeMismatch));
    assert_eq!(reg.lookup_dao(f(9)).err(), Some(Error::UnknownContract));
    let empty = StateRegistry::new();
    assert_eq!(empty.lookup_money(money_contract_id_exec()).err(), Some(Error::UnknownContract));
}

#[test]
fn airdrop_is_received_by_its_owner_only() {
    let (mut reg, cashier) = new_ledger();
    let secret = f(300);
    let note = airdrop_note(50, 1, 4);
    let t = cashier
        .airdrop(note.token_id, 50, public_key(secret).unwrap(), note.serial, note.coin_blind, note.value_blind, f(31))
        .unwrap();
    let outputs = t.outputs.clone();
    assert_eq!(reg.validate(&tx_of(vec![CallData::Transfer(t)]), true, true), Ok(()));
    assert_eq!(reg.money.as_ref().unwrap().tree.len(), 1);
    let mine = receive_coins(secret, public_key(secret).unwrap(), &outputs, 0);
    assert_eq!(mine.len(), 1);
    assert_eq!(mine[0].note, note);
    assert_eq!(mine[0].leaf_position, 0);
    assert_eq!(receive_coins(f(301), public_key(f(301)).unwrap(), &outputs, 0).len(), 0);
}

#[test]
fn unauthorised_clear_input_is_refused() {
    let (mut reg, _) = new_ledger();
    let rogue = Cashier { signature_public: public_key(f(666)).unwrap() };
    let t = rogue.airdrop(f(77), 5, public_key(f(300)).unwrap(), f(1), f(2), f(3), f(4)).unwrap();
    assert_eq!(
        reg.validate(&tx_of(vec![CallData::Transfer(t)]), true, true),
        Err(Error::SignatureVerificationFailed)
    );
}

#[test]
fn balanced_spend_is_accepted() {
    let (mut reg, cashier) = new_ledger();
    let secret = f(300);
    let note = airdropped(&mut reg, &cashier, secret, 40, 1, 7);
    let t = spend(&reg, secret, &note, 40, 7, public_key(f(301)).unwrap());
    assert_eq!(reg.validate(&tx_of(vec![CallData::Transfer(t)]), true, true), Ok(()));
    let m = reg.money.as_ref().unwrap();
    assert_eq!(m.nullifiers, vec![nullifier(secret, note.serial)]);
    assert_eq!(m.tree.len(), 2);
}

#[test]
fn unbalanced_spend_fails_with_insufficient_balance() {
    let (mut reg, cashier) = new_ledger();
    let secret = f(300);
    let note = airdropped(&mut reg, &cashier, secret, 40, 1, 7);
    let t = spend(&reg, secret, &note, 41, 7, public_key(f(301)).unwrap());
    let tx = tx_of(vec![CallData::Transfer(t)]);
    assert_eq!(reg.validate(&tx, false, false), Err(Error::InsufficientBalance));
    assert_eq!(reg.validate(&tx, true, true), Err(Error::InsufficientBalance));
}

#[test]
fn bad_root_and_proof_and_signature_failures() {
    let (mut reg, cashier) = new_ledger();
    let secret = f(300);
    let note = airdropped(&mut reg, &cashier, secret, 40, 1, 7);
    let mut t = spend(&reg, secret, &note, 40, 7, public_key(f(301)).unwrap());
    let good = tx_of(vec![CallData::Transfer(t.clone())]);
    assert_eq!(reg.validate(&good, false, true), Err(Error::ProofVerificationFailed));
    assert_eq!(reg.validate(&good, true, false), Err(Error::SignatureVerificationFailed));
    t.inputs[0].merkle_root = f(424242);
    assert_eq!(
        reg.validate(&tx_of(vec![CallData::Transfer(t)]), true, true),
        Err(Error::BadAuthenticationPath)
    );
}

#[test]
fn second_spend_of_a_coin_is_a_double_spend() {
    for first_to in [301u64, 302] {
        let (mut reg, cashier) = new_ledger();
        let secret = f(300);
        let note = airdropped(&mut reg, &cashier, secret, 40, 1, 7);
        let a = spend(&reg, secret, &note, 40, 7, public_key(f(first_to)).unwrap());
        let b = spend(&reg, secret, &note, 40, 7, public_key(f(603 - first_to)).unwrap());
        assert_eq!(reg.validate(&tx_of(vec![CallData::Transfer(a)]), true, true), Ok(()));
        assert_eq!(
            reg.validate(&tx_of(vec![CallData::Transfer(b)]), true, true),
            Err(Error::DoubleSpend)
        );
    }
}

#[test]
fn same_nullifier_twice_in_one_transfer_is_a_double_spend() {
    let (mut reg, cashier) = new_ledger();
    let secret = f(300);
    let note = airdropped(&mut reg, &cashier, secret, 40, 1, 7);
    let mut t = spend(&reg, secret, &note, 40, 7, public_key(f(301)).unwrap());
    t.inputs.push(t.inputs[0]);
    assert_eq!(reg.validate(&tx_of(vec![CallData::Transfer(t)]), true, true), Err(Error::DoubleSpend));
}

#[test]
fn failed_transaction_changes_nothing() {
    let (mut reg, cashier) = new_ledger();
    let secret = f(300);
    airdropped(&mut reg, &cashier, secret, 40, 1, 7);
    let before_root = money_root(&reg);
    let before_len = reg.money.as_ref().unwrap().tree.len();
    let t = cashier.airdrop(f(77), 9, public_key(secret).unwrap(), f(5), f(6), f(7), f(8)).unwrap();
    let bad = DaoExecCall {
        proposal_bulla: f(1),
        yes_votes_value: 0,
        yes_votes_blind: Fe::zero(),
        all_votes_value: 0,
        all_votes_blind: Fe::zero(),
        dao: DaoParams {
            proposer_limit: 0,
            quorum: 0,
            approval_ratio_quot: 0,
            approval_ratio_base: 1,
            gov_token_id: f(0),
            public_key: f(0),
            bulla_blind: f(0),
        },
        proposal: Proposal { dest: f(0), amount: 0, serial: f(0), token_id: f(0), blind: f(0) },
        change_public: f(0),
        change_value: 0,
        change_token_id: f(0),
        change_serial: f(0),
        change_coin_blind: f(0),
    };
    let tx = tx_of(vec![CallData::Transfer(t), CallData::DaoExec(bad)]);
    assert_eq!(reg.validate(&tx, true, true), Err(Error::UnknownProposal));
    assert_eq!(money_root(&reg), before_root);
    assert_eq!(reg.money.as_ref().unwrap().tree.len(), before_len);
    assert!(reg.money.as_ref().unwrap().nullifiers.is_empty());
    assert_eq!(reg.dao.as_ref().unwrap().proposals.len(), 0);
}

#[test]
fn quorum_and_ratio_boundary() {
    assert_eq!(check_thresholds(100, 1, 2, 50, 100), Ok(()));
    assert_eq!(check_thresholds(100, 1, 2, 49, 100), Err(Error::RatioNotMet));
    assert_eq!(check_thresholds(100, 1, 2, 50, 99), Err(Error::QuorumNotMet));
    assert_eq!(check_thresholds(u64::MAX, u64::MAX, u64::MAX, u64::MAX, u64::MAX), Ok(()));
    assert_eq!(check_thresholds(0, 2, 3, 1, 2), Err(Error::RatioNotMet));
}

#[test]
fn wallet_balance_and_tally() {
    let c = |v: u64| OwnCoin { coin: f(v), note: airdrop_note(v, v, 1), leaf_position: 0 };
    assert_eq!(balance(&vec![(c(5), false), (c(7), true), (c(10), false)]), Some(15));
    assert_eq!(balance(&vec![]), Some(0));
    assert_eq!(balance(&vec![(c(u64::MAX), false), (c(1), false)]), None);
    let votes = vec![
        VoteNote { vote_option: true, vote_value: 30, vote_value_blind: f(1) },
        VoteNote { vote_option: false, vote_value: 20, vote_value_blind: f(2) },
        VoteNote { vote_option: true, vote_value: 5, vote_value_blind: f(4) },
    ];
    let t = tally_votes(&votes).unwrap();
    assert_eq!((t.yes_value, t.all_value), (35, 55));
    assert_eq!((t.yes_blind, t.all_blind), (f(5), f(7)));
    let big = vec![
        VoteNote { vote_option: true, vote_value: u64::MAX, vote_value_blind: f(1) },
        VoteNote { vote_option: true, vote_value: 1, vote_value_blind: f(1) },
    ];
    assert_eq!(tally_votes(&big), None);
    assert_eq!(exec_change_value(100, 30), Ok(70));
    assert_eq!(exec_change_value(30, 100), Err(Error::InsufficientBalance));
}

struct DaoSetup {
    reg: StateRegistry,
    dao_secret: Fe,
    params: DaoParams,
    dao_bulla: Fe,
    proposal: Proposal,
    proposal_bulla: Fe,
    treasury: Note,
}

fn dao_setup(vote_yes: bool) -> DaoSetup {
    let (mut reg, cashier) = new_ledger();
    let dao_secret = f(900);
    let params = DaoParams {
        proposer_limit: 10,
        quorum: 20,
        approval_ratio_quot: 1,
        approval_ratio_base: 2,
        gov_token_id: f(77),
        public_key: public_key(dao_secret).unwrap(),
        bulla_blind: f(901),
    };
    let dao_bulla = params.bulla();
    let mint = DaoMintCall { dao_bulla };
    assert_eq!(reg.validate(&tx_of(vec![CallData::DaoMint(mint)]), true, true), Ok(()));
    let dao_root = reg.dao.as_ref().unwrap().dao_tree.root(0).unwrap();

    // treasury
    let treasury = Note {
        value: 1000,
        token_id: f(88),
        serial: f(902),
        spend_hook: exec_func_id_exec(),
        user_data: dao_bulla,
        coin_blind: f(903),
        value_blind: f(5),
    };
    let t = cashier
        .mint(f(88), 1000, dao_bulla, params.public_key, treasury.serial, treasury.coin_blind, treasury.value_blind, f(904))
        .unwrap();
    assert_eq!(reg.validate(&tx_of(vec![CallData::Transfer(t)]), true, true), Ok(()));

    // governance tokens of a voter
    let voter = f(300);
    let gov = airdropped(&mut reg, &cashier, voter, 30, 1, 9);
    let gov_commit = value_commit(30, f(9)).unwrap();
    let root = money_root(&reg);

    let proposal = Proposal { dest: public_key(f(301)).unwrap(), amount: 400, serial: f(905), token_id: f(88), blind: f(906) };
    let proposal_bulla = proposal.bulla(dao_bulla);
    let propose = DaoProposeCall {
        dao_merkle_root: dao_root,
        inputs: vec![GovInput { value_commit: gov_commit, merkle_root: root, nullifier: Fe::zero() }],
        total_value: 30,
        total_value_blind: f(9),
        proposer_limit: 10,
        proposal_bulla,
        enc_note: payload(params.public_key),
    };
    assert_eq!(reg.validate(&tx_of(vec![CallData::DaoPropose(propose)]), true, true), Ok(()));

    let yes_commit = if vote_yes { gov_commit } else { value_commit(0, f(9)).unwrap() };
    let vote = DaoVoteCall {
        proposal_bulla,
        inputs: vec![GovInput { value_commit: gov_commit, merkle_root: root, nullifier: nullifier(voter, gov.serial) }],
        yes_vote_commit: yes_commit,
        all_vote_commit: gov_commit,
        enc_note: payload(params.public_key),
    };
    assert_eq!(reg.validate(&tx_of(vec![CallData::DaoVote(vote.clone())]), true, true), Ok(()));
    assert_eq!(reg.validate(&tx_of(vec![CallData::DaoVote(vote)]), true, true), Err(Error::DoubleSpend));
    DaoSetup { reg, dao_secret, params, dao_bulla, proposal, proposal_bulla, treasury }
}

/// The exec transaction: spend the treasury to the proposal's destination
/// and back to the DAO, with the change locked to `change_user_data`.
fn exec_tx(s: &DaoSetup, change_user_data: Fe, yes_value: u64) -> Transaction {
    exec_tx_spending(s, change_user_data, yes_value, s.dao_bulla)
}

fn exec_tx_spending(s: &DaoSetup, change_user_data: Fe, yes_value: u64, treasury_user_data: Fe) -> Transaction {
    let dao_pub = s.params.public_key;
    let pay = Note {
        value: s.proposal.amount,
        token_id: s.proposal.token_id,
        serial: s.proposal.serial,
        spend_hook: Fe::zero(),
        user_data: Fe::zero(),
        coin_blind: s.proposal.blind,
        value_blind: f(2),
    };
    let change = Note {
        value: 600,
        token_id: f(88),
        serial: f(907),
        spend_hook: exec_func_id_exec(),
        user_data: change_user_data,
        coin_blind: f(908),
        value_blind: f(3),
    };
    let transfer = TransferCall {
        clear_inputs: vec![],
        inputs: vec![Input {
            value_commit: value_commit(1000, f(5)).unwrap(),
            merkle_root: money_root(&s.reg),
            nullifier: nullifier(s.dao_secret, s.treasury.serial),
            spend_hook: exec_func_id_exec(),
            user_data: treasury_user_data,
            signature_public: dao_pub,
        }],
        outputs: vec![
            Output {
                value_commit: value_commit(400, f(2)).unwrap(),
                coin: pay.coin(s.proposal.dest),
                enc_note: pay.encrypt(s.proposal.dest, f(910)).unwrap(),
            },
            Output {
                value_commit: value_commit(600, f(3)).unwrap(),
                coin: change.coin(dao_pub),
                enc_note: change.encrypt(dao_pub, f(911)).unwrap(),
            },
        ],
    };
    let exec = DaoExecCall {
        proposal_bulla: s.proposal_bulla,
        yes_votes_value: yes_value,
        yes_votes_blind: f(9),
        all_votes_value: 30,
        all_votes_blind: f(9),
        dao: s.params,
        proposal: s.proposal,
        change_public: dao_pub,
        change_value: 600,
        change_token_id: f(88),
        change_serial: f(907),
        change_coin_blind: f(908),
    };
    tx_of(vec![CallData::Transfer(transfer), CallData::DaoExec(exec)])
}

#[test]
fn exec_pays_out_once() {
    let mut s = dao_setup(true);
    assert_ne!(s.dao_bulla, s.proposal_bulla);
    let tx = exec_tx(&s, s.proposal_bulla, 30);
    assert_eq!(s.reg.validate(&tx, true, true), Ok(()));
    assert!(s.reg.dao.as_ref().unwrap().proposals[0].executed);
    assert_eq!(s.reg.validate(&tx, true, true), Err(Error::DoubleSpend));
    let CallData::DaoExec(exec) = &tx.func_calls[1].call_data else { panic!() };
    let CallData::Transfer(transfer) = &tx.func_calls[0].call_data else { panic!() };
    assert_eq!(
        validate_exec(s.reg.dao.as_ref().unwrap(), Some(transfer), exec).err(),
        Some(Error::ProposalAlreadyExecuted)
    );
}

#[test]
fn exec_with_change_not_bound_to_proposal_fails() {
    let mut s = dao_setup(true);
    let tx = exec_tx(&s, s.dao_bulla, 30);
    assert_eq!(s.reg.validate(&tx, true, true), Err(Error::SpendHookMismatch));
    assert!(!s.reg.dao.as_ref().unwrap().proposals[0].executed);
}

#[test]
fn exec_paying_someone_else_fails() {
    let mut s = dao_setup(true);
    let tx = exec_tx(&s, s.proposal_bulla, 30);
    let mut calls = tx.func_calls.clone();
    if let CallData::DaoExec(e) = &mut calls[1].call_data {
        e.proposal.dest = public_key(f(302)).unwrap();
    }
    let redirected = Transaction { func_calls: calls, signatures: vec![] };
    assert_eq!(s.reg.validate(&redirected, true, true), Err(Error::SpendHookMismatch));
    assert_eq!(s.reg.validate(&tx, true, true), Ok(()));
}

#[test]
fn exec_spending_coins_of_another_dao_fails() {
    let mut s = dao_setup(true);
    let tx = exec_tx_spending(&s, s.proposal_bulla, 30, f(4444));
    assert_eq!(s.reg.validate(&tx, true, true), Err(Error::SpendHookMismatch));
}

#[test]
fn exec_without_enough_yes_votes_fails() {
    let mut s = dao_setup(false);
    let tx = exec_tx(&s, s.proposal_bulla, 0);
    assert_eq!(s.reg.validate(&tx, true, true), Err(Error::RatioNotMet));
    let wrong_opening = exec_tx(&s, s.proposal_bulla, 30);
    assert_eq!(s.reg.validate(&wrong_opening, true, true), Err(Error::InsufficientBalance));
}

#[test]
fn built_calls_run_the_dao_flow() {
    let (mut reg, cashier) = new_ledger();
    let dao_secret = f(900);
    let dao_public = public_key(dao_secret).unwrap();
    let params = DaoParams {
        proposer_limit: 10,
        quorum: 20,
        approval_ratio_quot: 1,
        approval_ratio_base: 2,
        gov_token_id: f(77),
        public_key: dao_public,
        bulla_blind: f(901),
    };
    let dao_bulla = params.bulla();
    assert_eq!(reg.validate(&tx_of(vec![CallData::DaoMint(DaoMintCall { dao_bulla })]), true, true), Ok(()));
    let t = cashier.mint(f(88), 1000, dao_bulla, dao_public, f(902), f(903), f(5), f(904)).unwrap();
    let treasury_outputs = t.outputs.clone();
    assert_eq!(reg.validate(&tx_of(vec![CallData::Transfer(t)]), true, true), Ok(()));
    let treasury = receive_coins(dao_secret, dao_public, &treasury_outputs, 0);
    assert_eq!(treasury.len(), 1);
    assert_eq!(treasury[0].note.user_data, dao_bulla);

    let voter = f(300);
    let gov = airdropped(&mut reg, &cashier, voter, 30, 1, 9);
    let gov_coin = OwnCoin { coin: gov.coin(public_key(voter).unwrap()), note: gov, leaf_position: 1 };
    let coins = vec![(gov_coin, false)];

    let proposal = Proposal { dest: public_key(f(301)).unwrap(), amount: 400, serial: f(905), token_id: f(88), blind: f(906) };
    let m = reg.money.as_ref().unwrap();
    let d = reg.dao.as_ref().unwrap();
    let (propose, witnesses, dao_witness) =
        build_propose(&m.tree, &d.dao_tree, &coins, voter, params, proposal, 0, f(9), f(31)).unwrap();
    assert_eq!(witnesses.len(), 1);
    assert_eq!(witnesses[0].leaf_position, 1);
    assert!(verify_path(gov_coin.coin, 1, &witnesses[0].path, m.tree.root(0).unwrap()));
    assert!(verify_path(dao_bulla, 0, &dao_witness.path, d.dao_tree.root(0).unwrap()));
    assert_eq!(
        build_propose(&m.tree, &d.dao_tree, &coins, voter, params, proposal, 1, f(9), f(31)).err(),
        Some(Error::StalePosition)
    );
    assert_eq!(propose.total_value, 30);
    let (read, bulla) = read_proposal(dao_secret, &propose).unwrap();
    assert_eq!(read, proposal);
    assert_eq!(bulla, proposal.bulla(dao_bulla));
    assert_eq!(read_proposal(f(901), &propose).err(), Some(Error::DecryptionError));
    assert_eq!(reg.validate(&tx_of(vec![CallData::DaoPropose(propose)]), true, true), Ok(()));

    let m = reg.money.as_ref().unwrap();
    let (vote, vote_witnesses) = build_vote(&m.tree, &coins, voter, true, bulla, dao_public, f(9), f(32)).unwrap();
    assert_eq!(vote_witnesses[0].leaf_position, 1);
    let v = read_vote(dao_secret, &vote).unwrap();
    assert_eq!(v, VoteNote { vote_option: true, vote_value: 30, vote_value_blind: f(9) });
    assert_eq!(reg.validate(&tx_of(vec![CallData::DaoVote(vote)]), true, true), Ok(()));

    let treasury_coins = vec![(treasury[0], false)];
    let m = reg.money.as_ref().unwrap();
    let too_much = Proposal { amount: 1001, ..proposal };
    assert_eq!(
        build_exec(dao_secret, dao_public, &treasury_coins, &m.tree, too_much, bulla, params, &vec![v], f(5), f(2), f(907), f(908), f(33)).err(),
        Some(Error::InsufficientBalance)
    );
    let (transfer, exec, exec_witnesses) = build_exec(
        dao_secret, dao_public, &treasury_coins, &m.tree, proposal, bulla, params, &vec![v], f(5), f(2), f(907), f(908), f(33),
    )
    .unwrap();
    assert_eq!(exec.change_value, 600);
    assert_eq!(exec_witnesses.len(), 1);
    assert_eq!(exec_witnesses[0].leaf_position, 0);
    assert_eq!((exec.yes_votes_value, exec.all_votes_value), (30, 30));
    let tx = tx_of(vec![CallData::Transfer(transfer), CallData::DaoExec(exec)]);
    assert_eq!(reg.validate(&tx, true, true), Ok(()));
    assert!(reg.dao.as_ref().unwrap().proposals[0].executed);
}

#[test]
fn init_registers_both_contracts_empty() {
    let reg = StateRegistry::init(f(1), f(2));
    let m = reg.lookup_money(money_contract_id_exec()).unwrap();
    assert_eq!((m.cashier_public, m.faucet_public), (f(1), f(2)));
    assert_eq!(m.tree.len(), 0);
    assert_eq!(reg.lookup_dao(dao_contract_id_exec()).unwrap().proposals.len(), 0);
}

#[test]
fn owned_coin_path_verifies_at_current_root() {
    let (mut reg, cashier) = new_ledger();
    let secret = f(300);
    let note = airdropped(&mut reg, &cashier, secret, 40, 1, 7);
    airdropped(&mut reg, &cashier, f(301), 41, 2, 8);
    let public = public_key(secret).unwrap();
    let coin = OwnCoin { coin: note.coin(public), note, leaf_position: 0 };
    let tree = &reg.money.as_ref().unwrap().tree;
    let w = coin_path(tree, &coin).unwrap();
    assert_eq!(w.leaf_position, 0);
    assert!(verify_path(coin.coin, 0, &w.path, tree.root(0).unwrap()));
    let missing = OwnCoin { leaf_position: 5, ..coin };
    assert_eq!(coin_path(tree, &missing).err(), Some(Error::StalePosition));
}

#[test]
fn mint_call_carries_the_dao_bulla() {
    let params = DaoParams {
        proposer_limit: 1,
        quorum: 2,
        approval_ratio_quot: 3,
        approval_ratio_base: 4,
        gov_token_id: f(5),
        public_key: public_key(f(6)).unwrap(),
        bulla_blind: f(7),
    };
    assert_eq!(build_mint(params).dao_bulla, params.bulla());
    let other = DaoParams { quorum: 3, ..params };
    assert_ne!(params.bulla(), other.bulla());
}

#[test]
fn more_error_variants() {
    // no contract registered
    let mut empty = StateRegistry::new();
    let t = Cashier { signature_public: public_key(f(1)).unwrap() }
        .airdrop(f(77), 5, public_key(f(2)).unwrap(), f(3), f(4), f(5), f(6))
        .unwrap();
    assert_eq!(empty.validate(&tx_of(vec![CallData::Transfer(t)]), true, true), Err(Error::UnknownContract));

    // a proposal below the proposer limit
    let (mut reg, cashier) = new_ledger();
    let gov = airdropped(&mut reg, &cashier, f(300), 5, 1, 9);
    assert_eq!(reg.validate(&tx_of(vec![CallData::DaoMint(DaoMintCall { dao_bulla: f(12) })]), true, true), Ok(()));
    let propose = DaoProposeCall {
        dao_merkle_root: reg.dao.as_ref().unwrap().dao_tree.root(0).unwrap(),
        inputs: vec![GovInput { value_commit: value_commit(5, f(9)).unwrap(), merkle_root: money_root(&reg), nullifier: Fe::zero() }],
        total_value: gov.value,
        total_value_blind: f(9),
        proposer_limit: 10,
        proposal_bulla: f(13),
        enc_note: payload(public_key(f(900)).unwrap()),
    };
    assert_eq!(
        reg.validate(&tx_of(vec![CallData::DaoPropose(propose.clone())]), true, true),
        Err(Error::BelowProposerLimit)
    );
    let wrong_opening = DaoProposeCall { total_value: 50, ..propose };
    assert_eq!(
        reg.validate(&tx_of(vec![CallData::DaoPropose(wrong_opening)]), true, true),
        Err(Error::InsufficientBalance)
    );

    // a coin with a spend hook spent without the hooked call
    let hooked = Note { spend_hook: exec_func_id_exec(), user_data: f(12), ..airdrop_note(40, 20, 7) };
    let t = cashier
        .mint(hooked.token_id, 40, f(12), public_key(f(300)).unwrap(), hooked.serial, hooked.coin_blind, hooked.value_blind, f(8))
        .unwrap();
    assert_eq!(reg.validate(&tx_of(vec![CallData::Transfer(t)]), true, true), Ok(()));
    let s = spend(&reg, f(300), &hooked, 40, 7, public_key(f(301)).unwrap());
    assert_eq!(reg.validate(&tx_of(vec![CallData::Transfer(s)]), true, true), Err(Error::SpendHookMismatch));

    // a key that encodes no point
    let bad_key = Fe { l0: u64::MAX, l1: u64::MAX, l2: u64::MAX, l3: u64::MAX >> 1 };
    assert_eq!(public_key(f(5)).map(|k| k == bad_key), Some(false));
    assert!(encrypt_payload(bad_key, f(1), &vec![f(1)]).is_none());
    let gov_coin = OwnCoin { coin: Fe::zero(), note: gov, leaf_position: 0 };
    let params = DaoParams {
        proposer_limit: 1,
        quorum: 1,
        approval_ratio_quot: 1,
        approval_ratio_base: 1,
        gov_token_id: f(77),
        public_key: bad_key,
        bulla_blind: f(1),
    };
    let proposal = Proposal { dest: f(1), amount: 1, serial: f(2), token_id: f(3), blind: f(4) };
    let m = reg.money.as_ref().unwrap();
    let d = reg.dao.as_ref().unwrap();
    assert_eq!(
        build_propose(&m.tree, &d.dao_tree, &vec![(gov_coin, false)], f(300), params, proposal, 0, f(9), f(31)).err(),
        Some(Error::InvalidPoint)
    );
}

#[test]
fn dao_keeps_only_coins_locked_to_it() {
    let locked = Note { spend_hook: exec_func_id_exec(), user_data: f(12), ..airdrop_note(40, 1, 7) };
    let other_dao = Note { user_data: f(13), ..locked };
    let free = airdrop_note(5, 2, 3);
    let c = |n: Note| OwnCoin { coin: f(n.value), note: n, leaf_position: 0 };
    let kept = treasury_coins(&vec![c(locked), c(other_dao), c(free)], f(12));
    assert_eq!(kept, vec![c(locked)]);
}

#[test]
fn outputs_take_positions_in_call_order() {
    let (_, cashier) = new_ledger();
    let a = cashier.airdrop(f(77), 5, public_key(f(2)).unwrap(), f(3), f(4), f(5), f(6)).unwrap();
    let mint = DaoMintCall { dao_bulla: f(1) };
    let tx = tx_of(vec![CallData::Transfer(a.clone()), CallData::DaoMint(mint), CallData::Transfer(a)]);
    assert_eq!(output_positions(&tx, 7), Some(vec![7, 8, 8]));
    assert_eq!(output_positions(&tx, usize::MAX), None);
}

#[test]
fn double_spend_in_a_later_call_is_refused() {
    let (mut reg, cashier) = new_ledger();
    let secret = f(300);
    let note = airdropped(&mut reg, &cashier, secret, 40, 1, 7);
    let a = spend(&reg, secret, &note, 40, 7, public_key(f(301)).unwrap());
    let b = spend(&reg, secret, &note, 40, 7, public_key(f(302)).unwrap());
    assert_eq!(reg.validate(&tx_of(vec![CallData::Transfer(a)]), true, true), Ok(()));
    let fresh = cashier.airdrop(f(77), 5, public_key(f(2)).unwrap(), f(3), f(4), f(5), f(6)).unwrap();
    let tx = tx_of(vec![CallData::Transfer(fresh), CallData::Transfer(b)]);
    assert_eq!(reg.validate(&tx, true, true), Err(Error::DoubleSpend));
}

#[test]
fn vote_blinds_add_modulo_the_group_order() {
    let q_minus_one = Fe { l0: 0x8c46eb2100000000, l1: 0x224698fc0994a8dd, l2: 0, l3: 0x4000000000000000 };
    let votes = vec![
        VoteNote { vote_option: true, vote_value: 1, vote_value_blind: q_minus_one },
        VoteNote { vote_option: false, vote_value: 1, vote_value_blind: f(2) },
    ];
    let t = tally_votes(&votes).unwrap();
    assert_eq!(t.yes_blind, q_minus_one);
    assert_eq!(t.all_blind, f(1));
}
