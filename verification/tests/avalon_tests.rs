use fcross::avalon::contract::{
    give_status_vote, give_validity_vote, instantiate, new_preparation_request, try_pull_new_batch, Response,
};
use fcross::avalon::error::ContractError;
use fcross::avalon::msg::{
    ExecuteMsg, FcrossTx, InstantiateMsg, Operation, StatusInstruction, StatusVote, ValidityVote, Vote,
};
use fcross::avalon::state::{ChannelInfo, ContractState};
use fcross::chain::Action;

const NOW: u64 = 30;

fn attrs(list: &[(&str, &str)]) -> Vec<(String, String)> {
    list.iter().map(|(k, v)| (k.to_string(), v.to_string())).collect()
}

fn chain(value: i64) -> ContractState {
    let (mut state, attributes) = instantiate(InstantiateMsg { chain_id: 6, original_value: value });
    assert_eq!(attributes, attrs(&[("method", "instantiate"), ("initiated_chain", "6"), ("original_value", &value.to_string())]));
    state.my_channel = Some(ChannelInfo { channel_id: "channel-1".to_string(), finalized: true });
    state
}

fn txs(op: Operation) -> Vec<FcrossTx> {
    (1..=5u32).map(|tx_id| FcrossTx { tx_id, operation: op }).collect()
}

fn add(state: &mut ContractState, list: Vec<FcrossTx>) -> Result<Response, ContractError> {
    state.execute(NOW, &ExecuteMsg::ExecuteTxs { fcross_txs: list })
}

fn prepare(state: &mut ContractState, tx_id: u32, advancement: bool) -> Result<Response, ContractError> {
    state.execute(NOW + 5, &ExecuteMsg::PrepareTx { instruction: StatusInstruction { tx_id, advancement } })
}

fn sent(r: &Response) -> Vec<&Vote> {
    r.messages
        .iter()
        .filter_map(|m| match m {
            Action::Send(p) => Some(&p.data),
            Action::Call(_) => None,
        })
        .collect()
}

#[test]
fn transactions_wait_for_a_full_batch() {
    let mut state = chain(10);
    let r = add(&mut state, txs(Operation::CreditBalance { amount: 1 })[..4].to_vec()).unwrap();
    assert_eq!(r.attributes, attrs(&[("added_tx", "1"), ("added_tx", "2"), ("added_tx", "3"), ("added_tx", "4")]));
    assert!(r.messages.is_empty());
    assert_eq!(state.waiting.len(), 4);
    let r = add(&mut state, vec![FcrossTx { tx_id: 5, operation: Operation::CreditBalance { amount: 1 } }]).unwrap();
    assert_eq!(r.attributes, attrs(&[("added_tx", "5"), ("executed_batch", "1-2-3-4-5")]));
    let votes = sent(&r);
    assert_eq!(votes.len(), 5);
    assert_eq!(*votes[4], Vote::Status(StatusVote { tx_id: 5, chain_id: 6, status: true }));
    assert!(state.waiting.is_empty());
    assert_eq!(state.pending.len(), 5);
    assert_eq!(state.pending[4].1, Some(15));
}

#[test]
fn a_batch_that_cannot_run_finishes_at_once() {
    let mut state = chain(0);
    let r = add(&mut state, txs(Operation::DebitBalance { amount: 1 })).unwrap();
    assert_eq!(
        &r.attributes[4..],
        &attrs(&[("added_tx", "5"), ("finished_batch", "true"), ("batch_info", "1-2-3-4-5")])[..]
    );
    assert!(sent(&r).iter().all(|v| matches!(v, Vote::Status(s) if !s.status)));
    assert_eq!(state.history, vec![(1, false), (2, false), (3, false), (4, false), (5, false)]);
    assert!(state.pending.is_empty());
    assert_eq!(state.my_time_logs().logs[0], "1,30,30");
}

#[test]
fn preparation_votes_on_validity_with_the_earlier_transactions() {
    let mut state = chain(10);
    add(&mut state, txs(Operation::CreditBalance { amount: 1 })).unwrap();
    let r = prepare(&mut state, 3, true).unwrap();
    assert!(r.attributes.is_empty());
    assert_eq!(sent(&r), vec![&Vote::Validity(ValidityVote { tx_id: 3, chain_id: 6, dependencies: vec![1, 2] })]);
    assert_eq!(prepare(&mut state, 3, true).err(), Some(ContractError::TxAlreadyPrepared(3)));
    let r = prepare(&mut state, 9, true).unwrap();
    assert_eq!(r.attributes, attrs(&[("cached_r1_instruction", "9-true")]));
}

#[test]
fn a_negative_status_aborts_the_rest_of_the_batch() {
    let mut state = chain(10);
    add(&mut state, txs(Operation::CreditBalance { amount: 1 })).unwrap();
    let r = prepare(&mut state, 1, false).unwrap();
    assert_eq!(r.attributes, attrs(&[("finished_batch", "true"), ("batch_info", "1-2-3-4-5")]));
    assert_eq!(state.history, vec![(1, false), (2, false), (3, false), (4, false), (5, false)]);
    assert_eq!(state.current_state, 10);
    let r = prepare(&mut state, 2, true).unwrap();
    assert_eq!(r.attributes, attrs(&[("already_early_aborted", "2")]));
}

#[test]
fn a_partial_batch_in_progress_is_refused() {
    let mut state = chain(10);
    add(&mut state, txs(Operation::CreditBalance { amount: 1 })).unwrap();
    state.pending.truncate(2);
    let r = add(&mut state, txs(Operation::CreditBalance { amount: 1 }));
    assert_eq!(r.err(), Some(ContractError::UnexpectedPendingTxsNumber(2)));
}

#[test]
fn vote_packets_of_both_rounds() {
    let p = give_status_vote(4, 6, false, "channel-1".to_string(), 10);
    assert_eq!(p.channel_id, "channel-1");
    assert_eq!(p.data, Vote::Status(StatusVote { tx_id: 4, chain_id: 6, status: false }));
    assert_eq!(p.timeout, 3_600_000_000_000_010);
    let p = give_validity_vote(4, 6, vec![1, 2, 3], "channel-1".to_string(), 10);
    assert_eq!(p.data, Vote::Validity(ValidityVote { tx_id: 4, chain_id: 6, dependencies: vec![1, 2, 3] }));
}

#[test]
fn cached_instructions_are_taken_once() {
    let mut cache = std::collections::BTreeMap::new();
    cache.insert(7u32, false);
    assert_eq!(new_preparation_request(&mut cache, 7), Some(StatusInstruction { tx_id: 7, advancement: false }));
    assert!(cache.is_empty());
    assert_eq!(new_preparation_request(&mut cache, 7), None);
}

#[test]
fn a_new_batch_is_pulled_only_when_full() {
    let mut waiting = txs(Operation::CreditBalance { amount: 1 });
    waiting.push(FcrossTx { tx_id: 6, operation: Operation::DebitBalance { amount: 2 } });
    let batch = try_pull_new_batch(&mut waiting).unwrap();
    assert_eq!(batch.iter().map(|t| t.tx_id).collect::<Vec<_>>(), vec![1, 2, 3, 4, 5]);
    assert_eq!(waiting.len(), 1);
    assert_eq!(try_pull_new_batch(&mut waiting), None);
    assert_eq!(waiting.len(), 1);
}

#[test]
fn a_transaction_short_of_a_batch_only_waits() {
    let mut state = chain(10);
    add(&mut state, txs(Operation::CreditBalance { amount: 1 })).unwrap();
    assert_eq!(state.pending.len(), 5);
    let pending_before = state.pending.len();
    let one = vec![FcrossTx { tx_id: 6, operation: Operation::CreditBalance { amount: 2 } }];
    add(&mut state, one.clone()).unwrap();
    assert_eq!(state.pending.len(), pending_before);
    assert_eq!(state.waiting, one);
}
