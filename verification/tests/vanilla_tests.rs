use fcross::chain::Action;
use fcross::fc_stor::error::ContractError;
use fcross::vanilla::contract::{give_vote, instantiate, NextRequest, Response};
use fcross::vanilla::msg::{ExecuteMsg, FcrossTx, InstantiateMsg, Instruction, Operation, Vote};
use fcross::vanilla::state::{ChannelInfo, ContractState};

const NOW: u64 = 9;

fn attrs(list: &[(&str, &str)]) -> Vec<(String, String)> {
    list.iter().map(|(k, v)| (k.to_string(), v.to_string())).collect()
}

fn chain(value: i64) -> ContractState {
    let (mut state, _) = instantiate(InstantiateMsg { chain_id: 1, original_value: value });
    state.my_channel = Some(ChannelInfo { channel_id: "channel-2".to_string(), finalized: true });
    state
}

fn tx(tx_id: u32, operation: Operation) -> FcrossTx {
    FcrossTx { tx_id, operation }
}

fn run(state: &mut ContractState, t: FcrossTx) -> Result<Response, ContractError> {
    state.execute(NOW, &ExecuteMsg::ExecuteTxs { fcross_txs: vec![t] })
}

fn finalize(state: &mut ContractState, tx_id: u32, commitment: bool) -> Result<Response, ContractError> {
    state.execute(NOW + 1, &ExecuteMsg::FinalizeTx { instruction: Instruction { tx_id, commitment } })
}

#[test]
fn a_vote_packet_carries_the_vote() {
    let p = give_vote(3, 1, false, "channel-2".to_string(), 0);
    assert_eq!(p.channel_id, "channel-2");
    assert_eq!(p.data, Vote { tx_id: 3, chain_id: 1, success: false });
    assert_eq!(p.timeout, 3_600_000_000_000_000);
}

#[test]
fn one_transaction_at_a_time() {
    let mut state = chain(10);
    let r = run(&mut state, tx(1, Operation::CreditBalance { amount: 5 })).unwrap();
    assert_eq!(r.attributes, attrs(&[("executed_tx", "1")]));
    assert_eq!(r.messages.len(), 1);
    assert!(matches!(&r.messages[0], Action::Send(p) if p.data == Vote { tx_id: 1, chain_id: 1, success: true }));

    let r = run(&mut state, tx(2, Operation::DebitBalance { amount: 3 })).unwrap();
    assert_eq!(r.attributes, attrs(&[("state_locked", "1"), ("cached_tx", "2")]));
    assert!(r.messages.is_empty());

    // the instruction for 2 comes early and is kept
    let r = finalize(&mut state, 2, true).unwrap();
    assert_eq!(r.attributes, attrs(&[("cached_instruction", "2-true"), ("mismatch_happened_2", "current_tx_1")]));

    let r = finalize(&mut state, 1, true).unwrap();
    assert_eq!(r.attributes, attrs(&[("finalized_tx", "1"), ("committed", "true")]));
    assert_eq!(r.messages.len(), 1);
    assert!(matches!(&r.messages[0], Action::Call(NextRequest::ExecuteTx(t)) if t.tx_id == 2));
    assert_eq!(state.current_state, 15);

    let r = run(&mut state, tx(2, Operation::DebitBalance { amount: 3 })).unwrap();
    assert_eq!(r.attributes, attrs(&[("executed_tx", "2")]));
    assert_eq!(r.messages.len(), 2);
    assert!(matches!(&r.messages[1], Action::Call(NextRequest::FinalizeTx(i)) if *i == Instruction { tx_id: 2, commitment: true }));
    assert_eq!(state.my_time_logs().logs, vec!["1,9,10", "2,9,None"]);
}

#[test]
fn a_transaction_that_cannot_run_aborts_at_once() {
    let mut state = chain(10);
    let r = run(&mut state, tx(5, Operation::DebitBalance { amount: 20 })).unwrap();
    assert_eq!(r.attributes, attrs(&[("early_abort", "5")]));
    assert_eq!(r.messages.len(), 1);
    assert!(matches!(&r.messages[0], Action::Send(p) if !p.data.success));
    assert_eq!(state.history, vec![0, 5]);
    assert_eq!(state.my_time_logs().logs, vec!["5,9,9"]);
    assert_eq!(
        run(&mut state, tx(5, Operation::CreditBalance { amount: 1 })).err(),
        Some(ContractError::ExecutionTxIdAlreadyExist { sent_id: 5 })
    );
}

#[test]
fn an_old_instruction_is_only_noted() {
    let mut state = chain(10);
    run(&mut state, tx(5, Operation::DebitBalance { amount: 20 })).unwrap();
    let r = finalize(&mut state, 5, false).unwrap();
    assert_eq!(r.attributes, attrs(&[("mismatch_happened_5", "current_tx_None")]));
}

#[test]
fn the_balance_moves_only_on_commit() {
    let mut state = chain(10);
    run(&mut state, tx(1, Operation::DebitBalance { amount: 4 })).unwrap();
    assert_eq!(state.current_state, 10);
    finalize(&mut state, 1, false).unwrap();
    assert_eq!(state.current_state, 10);
    run(&mut state, tx(2, Operation::DebitBalance { amount: 4 })).unwrap();
    finalize(&mut state, 2, true).unwrap();
    assert_eq!(state.current_state, 6);
}
